//! Conversion of Clang's syntax tree into the F* AST: C type strings
//! into `CType`, expressions, statements, and the programmes and maps of
//! a translation unit.

use vstd::prelude::*;

use crate::ast::clang_ast::{first_of_kind, lemma_first_of_kind, of_kind, opt_chars, opt_str, Node};
use crate::ast::fstar_ast::{
    cases_view, ctype_view, expr_view, exprs_view, fields_view, opt_expr_view, stmt_view, stmts_view, BinOp,
    BpfObject, BpfProg, CType, CTypeView, CaseView, Expr, ExprView, IntWidth, MapDef, Stmt, StmtView, StructDef,
    SwitchCase, UnaryOp,
};
use crate::text::{chars_of, dec_nat, push_dec_u64, push_str, str_eq};
use crate::verify::scan::{
    contains, contains_in, ends_with, find, find_in, has_prefix, has_suffix, parse_i64, parse_i64_of, parse_usize,
    parse_usize_of, slice_of, lemma_trim_len, lemma_find_from_bounds, starts_with, string_of, trim, trim_end_char, trim_end_char_of, trim_of,
};

verus! {

/// Why a syntax tree could not be converted.
#[derive(Debug)]
pub enum ConvertError {
    /// The root is not a `TranslationUnitDecl`; holds its kind.
    NotTranslationUnit(String),
    /// A `DeclStmt` without a `VarDecl`.
    DeclWithoutVar,
    /// A node of this kind with fewer children than it needs.
    TooFewChildren(String, usize),
    /// A node of this kind with no children.
    NoChildren(String),
    /// An operator node of this kind without an opcode.
    MissingOpcode(String),
    /// An `IntegerLiteral` without a value.
    MissingLiteralValue,
    /// An `IntegerLiteral` whose value is not a 64-bit integer.
    BadIntegerLiteral(String),
    /// A `DeclRefExpr` that names no declaration.
    MissingReferencedDecl,
    UnknownUnaryOp(String),
    UnknownBinaryOp(String),
    /// An expression of a kind the converter does not know, with its type.
    UnknownExprKind(String, Option<String>),
    /// The error arose while converting the named variable.
    InVariable(String, Box<ConvertError>),
    /// The error arose while converting the named function.
    InFunction(String, Box<ConvertError>),
}

/// A conversion error with its texts as character sequences.
pub enum ErrView {
    NotTranslationUnit(Seq<char>),
    DeclWithoutVar,
    TooFewChildren(Seq<char>, usize),
    NoChildren(Seq<char>),
    MissingOpcode(Seq<char>),
    MissingLiteralValue,
    BadIntegerLiteral(Seq<char>),
    MissingReferencedDecl,
    UnknownUnaryOp(Seq<char>),
    UnknownBinaryOp(Seq<char>),
    UnknownExprKind(Seq<char>, Option<Seq<char>>),
    InVariable(Seq<char>, Box<ErrView>),
    InFunction(Seq<char>, Box<ErrView>),
}

pub open spec fn err_view(e: ConvertError) -> ErrView
    decreases e,
{
    match e {
        ConvertError::NotTranslationUnit(k) => ErrView::NotTranslationUnit(k@),
        ConvertError::DeclWithoutVar => ErrView::DeclWithoutVar,
        ConvertError::TooFewChildren(k, n) => ErrView::TooFewChildren(k@, n),
        ConvertError::NoChildren(k) => ErrView::NoChildren(k@),
        ConvertError::MissingOpcode(k) => ErrView::MissingOpcode(k@),
        ConvertError::MissingLiteralValue => ErrView::MissingLiteralValue,
        ConvertError::BadIntegerLiteral(v) => ErrView::BadIntegerLiteral(v@),
        ConvertError::MissingReferencedDecl => ErrView::MissingReferencedDecl,
        ConvertError::UnknownUnaryOp(o) => ErrView::UnknownUnaryOp(o@),
        ConvertError::UnknownBinaryOp(o) => ErrView::UnknownBinaryOp(o@),
        ConvertError::UnknownExprKind(k, t) => ErrView::UnknownExprKind(k@, opt_chars(t)),
        ConvertError::InVariable(n, b) => ErrView::InVariable(n@, Box::new(err_view(*b))),
        ConvertError::InFunction(n, b) => ErrView::InFunction(n@, Box::new(err_view(*b))),
    }
}

// ---------------------------------------------------------------------
// C types

/// The known fields of the BPF context structs, as the F* side declares
/// them; no fields for any other struct.
pub open spec fn ctx_fields(name: Seq<char>) -> Seq<(Seq<char>, CTypeView)> {
    let u32t = CTypeView::CUInt(IntWidth::W32);
    let u64t = CTypeView::CUInt(IntWidth::W64);
    if name == "__sk_buff"@ {
        seq![("len"@, u32t), ("protocol"@, u32t), ("data"@, u32t), ("data_end"@, u32t)]
    } else if name == "xdp_md"@ {
        seq![("data"@, u32t), ("data_end"@, u32t), ("data_meta"@, u32t), ("ingress_ifindex"@, u32t),
            ("rx_queue_index"@, u32t)]
    } else if name == "pt_regs"@ {
        seq![("di"@, u64t), ("si"@, u64t), ("dx"@, u64t), ("cx"@, u64t), ("r8"@, u64t), ("r9"@, u64t),
            ("ax"@, u64t), ("sp"@, u64t), ("ip"@, u64t)]
    } else {
        Seq::empty()
    }
}

/// The C type a basic type name denotes (no pointer, array or qualifier).
pub open spec fn basic_ctype(s: Seq<char>) -> CTypeView {
    if s == "void"@ {
        CTypeView::CVoid
    } else if s == "_Bool"@ || s == "bool"@ {
        CTypeView::CBool
    } else if s == "char"@ || s == "unsigned char"@ || s == "__u8"@ || s == "uint8_t"@ || s == "u8"@ {
        CTypeView::CUInt(IntWidth::W8)
    } else if s == "unsigned short"@ || s == "__u16"@ || s == "uint16_t"@ || s == "u16"@ {
        CTypeView::CUInt(IntWidth::W16)
    } else if s == "unsigned int"@ || s == "__u32"@ || s == "uint32_t"@ || s == "u32"@ {
        CTypeView::CUInt(IntWidth::W32)
    } else if s == "unsigned long"@ || s == "unsigned long long"@ || s == "__u64"@ || s == "uint64_t"@
        || s == "u64"@ {
        CTypeView::CUInt(IntWidth::W64)
    } else if s == "signed char"@ || s == "__s8"@ || s == "int8_t"@ || s == "s8"@ {
        CTypeView::CInt(IntWidth::W8)
    } else if s == "short"@ || s == "__s16"@ || s == "int16_t"@ || s == "s16"@ {
        CTypeView::CInt(IntWidth::W16)
    } else if s == "int"@ || s == "__s32"@ || s == "int32_t"@ || s == "s32"@ {
        CTypeView::CInt(IntWidth::W32)
    } else if s == "long"@ || s == "long long"@ || s == "__s64"@ || s == "int64_t"@ || s == "s64"@ {
        CTypeView::CInt(IntWidth::W64)
    } else if has_prefix(s, "struct "@) {
        let n = trim(s.skip(7));
        CTypeView::CStruct(n, ctx_fields(n))
    } else if has_suffix(s, "_t"@) {
        CTypeView::CInt(IntWidth::W32)
    } else {
        CTypeView::CUInt(IntWidth::W64)
    }
}

/// `s` trimmed, without a leading `const ` and then a trailing ` const`.
pub open spec fn unqualified(s: Seq<char>) -> Seq<char> {
    let t = trim(s);
    let t2 = if has_prefix(t, "const "@) { t.skip(6) } else { t };
    if has_suffix(t2, " const"@) { t2.take(t2.len() - 6) } else { t2 }
}

/// The C type a Clang type string denotes: a pointer where it ends in
/// `*`, an array (of the size its brackets hold, 0 if that is no number)
/// where it holds `[`, otherwise a basic type; unknown names are 64-bit
/// unsigned values, and names ending in `_t` 32-bit signed ones.
pub open spec fn ctype_of(s: Seq<char>) -> CTypeView
    decreases s.len(),
{
    let u = unqualified(s);
    if u.len() > 0 && u.last() == '*' {
        proof {
            lemma_unqualified_len(s);
            lemma_trim_len(u.drop_last());
        }
        CTypeView::CPtr(Box::new(ctype_of(trim(u.drop_last()))))
    } else if find(u, seq!['[']) is Some {
        let p = find(u, seq!['['])->0;
        let size_text = trim(trim_end_char(u.skip(p + 1), ']'));
        let size: usize = match parse_usize(size_text) {
            Some(n) => n,
            None => 0,
        };
        proof {
            lemma_unqualified_len(s);
            lemma_find_from_bounds(u, seq!['['], 0);
            lemma_trim_len(u.take(p));
        }
        CTypeView::CArray(Box::new(ctype_of(trim(u.take(p)))), size)
    } else {
        basic_ctype(u)
    }
}

/// Removing qualifiers never lengthens.
pub proof fn lemma_unqualified_len(s: Seq<char>)
    ensures
        unqualified(s).len() <= s.len(),
{
    reveal_strlit("const ");
    reveal_strlit(" const");
    lemma_trim_len(s);
}

// ---------------------------------------------------------------------
// Expressions and statements

/// The node's printed type.
pub open spec fn qual_type_of(n: Node) -> Option<Seq<char>> {
    match n.ty {
        Some(t) => Some(t.qual_type@),
        None => None,
    }
}

/// The name of the declaration a node refers to.
pub open spec fn ref_name_of(n: Node) -> Option<Seq<char>> {
    match n.referenced_decl {
        Some(d) => opt_chars(d.name),
        None => None,
    }
}

/// The type a node's printed type denotes, or `d` where it has none.
pub open spec fn ctype_or(q: Option<Seq<char>>, d: CTypeView) -> CTypeView {
    match q {
        Some(t) => ctype_of(t),
        None => d,
    }
}

/// The variable a node names, looking through implicit casts.
pub open spec fn var_name_of(n: Node) -> Option<Seq<char>>
    decreases n,
{
    if n.kind@ == "DeclRefExpr"@ {
        ref_name_of(n)
    } else if n.kind@ == "ImplicitCastExpr"@ && n.inner@.len() > 0 {
        var_name_of(n.inner@[0])
    } else {
        None
    }
}

/// The width a type string names: 64 for `64` or `long long`, 16 for
/// `16` or `short`, 8 for `8` or `char`, otherwise 32.
pub open spec fn int_width_of(t: Seq<char>) -> IntWidth {
    if contains(t, "64"@) || contains(t, "long long"@) {
        IntWidth::W64
    } else if contains(t, "16"@) || contains(t, "short"@) {
        IntWidth::W16
    } else if contains(t, "8"@) || contains(t, "char"@) {
        IntWidth::W8
    } else {
        IntWidth::W32
    }
}

/// Whether a type string names an unsigned type.
pub open spec fn unsigned_name(t: Seq<char>) -> bool {
    contains(t, "unsigned"@) || has_prefix(t, "__u"@) || has_prefix(t, "uint"@)
}

/// The byte size a type string names, for `sizeof`: 8 for pointers and
/// for names it does not know.
pub open spec fn type_size(t: Seq<char>) -> u64 {
    let s = trim(t);
    if s.len() > 0 && s.last() == '*' {
        8
    } else if s == "void"@ {
        0
    } else if s == "_Bool"@ || s == "bool"@ {
        1
    } else if s == "unsigned char"@ || s == "__u8"@ || s == "uint8_t"@ || s == "u8"@ || s == "signed char"@
        || s == "__s8"@ || s == "int8_t"@ || s == "s8"@ || s == "char"@ {
        1
    } else if s == "unsigned short"@ || s == "__u16"@ || s == "uint16_t"@ || s == "u16"@ || s == "short"@
        || s == "__s16"@ || s == "int16_t"@ || s == "s16"@ {
        2
    } else if s == "unsigned int"@ || s == "__u32"@ || s == "uint32_t"@ || s == "u32"@ || s == "int"@
        || s == "__s32"@ || s == "int32_t"@ || s == "s32"@ {
        4
    } else {
        8
    }
}

/// The binary operator an opcode names.
pub open spec fn binop_of(op: Seq<char>) -> Option<BinOp> {
    if op == "+"@ {
        Some(BinOp::Add)
    } else if op == "-"@ {
        Some(BinOp::Sub)
    } else if op == "*"@ {
        Some(BinOp::Mul)
    } else if op == "/"@ {
        Some(BinOp::Div)
    } else if op == "%"@ {
        Some(BinOp::Mod)
    } else if op == "&"@ {
        Some(BinOp::BitAnd)
    } else if op == "|"@ {
        Some(BinOp::BitOr)
    } else if op == "^"@ {
        Some(BinOp::BitXor)
    } else if op == "<<"@ {
        Some(BinOp::ShiftL)
    } else if op == ">>"@ {
        Some(BinOp::ShiftR)
    } else if op == "=="@ {
        Some(BinOp::Eq)
    } else if op == "!="@ {
        Some(BinOp::Ne)
    } else if op == "<"@ {
        Some(BinOp::Lt)
    } else if op == "<="@ {
        Some(BinOp::Le)
    } else if op == ">"@ {
        Some(BinOp::Gt)
    } else if op == ">="@ {
        Some(BinOp::Ge)
    } else if op == "&&"@ {
        Some(BinOp::LAnd)
    } else if op == "||"@ {
        Some(BinOp::LOr)
    } else {
        None
    }
}

/// Distinct C operators convert to distinct binary operators: no two
/// opcodes (such as `<` and `<=`) share one.
pub proof fn lemma_binop_of_injective(a: Seq<char>, b: Seq<char>)
    requires
        binop_of(a) is Some,
        binop_of(a) == binop_of(b),
    ensures
        a == b,
{
}

/// The operator of a compound assignment opcode (`+=` and the like).
pub open spec fn compound_op_of(op: Seq<char>) -> Option<BinOp> {
    if op == "+="@ {
        Some(BinOp::Add)
    } else if op == "-="@ {
        Some(BinOp::Sub)
    } else if op == "*="@ {
        Some(BinOp::Mul)
    } else if op == "/="@ {
        Some(BinOp::Div)
    } else if op == "%="@ {
        Some(BinOp::Mod)
    } else if op == "&="@ {
        Some(BinOp::BitAnd)
    } else if op == "|="@ {
        Some(BinOp::BitOr)
    } else if op == "^="@ {
        Some(BinOp::BitXor)
    } else if op == "<<="@ {
        Some(BinOp::ShiftL)
    } else if op == ">>="@ {
        Some(BinOp::ShiftR)
    } else {
        None
    }
}

/// The expression a unary opcode builds around its operand.
pub open spec fn unary_of(op: Seq<char>, a: ExprView) -> Option<ExprView> {
    if op == "*"@ {
        Some(ExprView::Deref(Box::new(a)))
    } else if op == "&"@ {
        Some(ExprView::AddrOf(Box::new(a)))
    } else if op == "-"@ {
        Some(ExprView::UnaryOp(UnaryOp::Neg, Box::new(a)))
    } else if op == "~"@ {
        Some(ExprView::UnaryOp(UnaryOp::BitNot, Box::new(a)))
    } else if op == "!"@ {
        Some(ExprView::UnaryOp(UnaryOp::LNot, Box::new(a)))
    } else if op == "++"@ {
        Some(ExprView::UnaryOp(UnaryOp::PreInc, Box::new(a)))
    } else if op == "--"@ {
        Some(ExprView::UnaryOp(UnaryOp::PreDec, Box::new(a)))
    } else {
        None
    }
}

/// The approximate C type of an expression: a variable's or a cast's
/// type, or the pointee of a dereferenced pointer.
pub open spec fn base_type_of(e: ExprView) -> Option<CTypeView>
    decreases e,
{
    match e {
        ExprView::VarRef(_, t) => Some(t),
        ExprView::Deref(inner) => match base_type_of(*inner) {
            Some(CTypeView::CPtr(t)) => Some(*t),
            _ => None,
        },
        ExprView::Cast(_, t) => Some(t),
        _ => None,
    }
}

/// `s` without leading `c`s.
pub open spec fn trim_start_char(s: Seq<char>, c: char) -> Seq<char>
    decreases s.len(),
{
    if s.len() > 0 && s[0] == c { trim_start_char(s.drop_first(), c) } else { s }
}

/// The last node of `s` that is not a type node.
pub open spec fn last_init(s: Seq<Node>) -> Option<int>
    decreases s.len(),
{
    if s.len() == 0 {
        None
    } else if !has_suffix(s.last().kind@, "Type"@) && s.last().kind@ != "BuiltinType"@ {
        Some(s.len() - 1)
    } else {
        last_init(s.drop_last())
    }
}

/// A found position is in range.
pub proof fn lemma_last_init(s: Seq<Node>)
    ensures
        last_init(s) matches Some(j) ==> 0 <= j < s.len(),
    decreases s.len(),
{
    if s.len() > 0 {
        lemma_last_init(s.drop_last());
    }
}

/// The statements of a branch: a compound's own, or the one statement.
pub open spec fn branch_of(st: StmtView) -> Seq<StmtView> {
    match st {
        StmtView::Compound(ss) => ss,
        _ => seq![st],
    }
}

/// A binary expression of two converted operands, the left one's error
/// first.
pub open spec fn binary_of(op: BinOp, a: Result<ExprView, ErrView>, b: Result<ExprView, ErrView>) -> Result<
    ExprView,
    ErrView,
> {
    match a {
        Err(e) => Err(e),
        Ok(x) => match b {
            Err(e) => Err(e),
            Ok(y) => Ok(ExprView::BinOp(op, Box::new(x), Box::new(y))),
        },
    }
}

/// An `IntegerLiteral`: signed or unsigned, of the width, as its type
/// says.
pub open spec fn int_lit_of(n: Node) -> Result<ExprView, ErrView> {
    match n.value {
        None => Err(ErrView::MissingLiteralValue),
        Some(v) => match parse_i64(v@) {
            None => Err(ErrView::BadIntegerLiteral(v@)),
            Some(val) => {
                let t = match qual_type_of(n) {
                    Some(t) => t,
                    None => "int"@,
                };
                if unsigned_name(t) {
                    Ok(ExprView::UIntLit(val as u64, int_width_of(t)))
                } else {
                    Ok(ExprView::IntLit(val, int_width_of(t)))
                }
            },
        },
    }
}

/// A `DeclRefExpr`: the variable with its type.
pub open spec fn decl_ref_of(n: Node) -> Result<ExprView, ErrView> {
    match ref_name_of(n) {
        None => Err(ErrView::MissingReferencedDecl),
        Some(name) => Ok(ExprView::VarRef(name, ctype_or(qual_type_of(n), CTypeView::CInt(IntWidth::W32)))),
    }
}

/// A `BinaryOperator` or `CompoundAssignOperator`: an assignment is its
/// right side, a compound assignment or another operator the binary
/// expression.
pub open spec fn binary_node_of(n: Node) -> Result<ExprView, ErrView>
    decreases n, 4int,
{
    let c = n.inner@;
    match n.opcode {
        None => Err(ErrView::MissingOpcode("BinaryOperator"@)),
        Some(op) => if c.len() < 2 {
            Err(ErrView::TooFewChildren("BinaryOperator"@, 2))
        } else if op@ == "="@ {
            expr_of(c[1])
        } else if compound_op_of(op@) is Some {
            binary_of(compound_op_of(op@)->0, expr_of(c[0]), expr_of(c[1]))
        } else {
            match binop_of(op@) {
                None => Err(ErrView::UnknownBinaryOp(op@)),
                Some(b) => binary_of(b, expr_of(c[0]), expr_of(c[1])),
            }
        },
    }
}

/// A `UnaryOperator` around its converted operand.
pub open spec fn unary_node_of(n: Node) -> Result<ExprView, ErrView>
    decreases n, 4int,
{
    let c = n.inner@;
    match n.opcode {
        None => Err(ErrView::MissingOpcode("UnaryOperator"@)),
        Some(op) => if c.len() == 0 {
            Err(ErrView::NoChildren("UnaryOperator"@))
        } else {
            match expr_of(c[0]) {
                Err(e) => Err(e),
                Ok(a) => match unary_of(op@, a) {
                    Some(x) => Ok(x),
                    None => Err(ErrView::UnknownUnaryOp(op@)),
                },
            }
        },
    }
}

/// A `CallExpr`: the callee's name (`<unknown>` where the first child
/// names none) and the other children as arguments.
pub open spec fn call_of(n: Node) -> Result<ExprView, ErrView>
    decreases n, 4int,
{
    let c = n.inner@;
    if c.len() == 0 {
        Err(ErrView::NoChildren("CallExpr"@))
    } else {
        let name = match var_name_of(c[0]) {
            Some(x) => x,
            None => "<unknown>"@,
        };
        match exprs_of(c.drop_first()) {
            Err(e) => Err(e),
            Ok(args) => Ok(ExprView::Call(name, args)),
        }
    }
}

/// A `ConditionalOperator`.
pub open spec fn conditional_of(n: Node) -> Result<ExprView, ErrView>
    decreases n, 4int,
{
    let c = n.inner@;
    if c.len() < 3 {
        Err(ErrView::TooFewChildren("ConditionalOperator"@, 3))
    } else {
        match expr_of(c[0]) {
            Err(e) => Err(e),
            Ok(x) => match expr_of(c[1]) {
                Err(e) => Err(e),
                Ok(y) => match expr_of(c[2]) {
                    Err(e) => Err(e),
                    Ok(z) => Ok(ExprView::Ternary(Box::new(x), Box::new(y), Box::new(z))),
                },
            },
        }
    }
}

/// An implicit cast is looked through; an explicit one with a type
/// becomes a cast to it.
pub open spec fn cast_of(n: Node) -> Result<ExprView, ErrView>
    decreases n, 4int,
{
    let c = n.inner@;
    if c.len() == 0 {
        Err(ErrView::NoChildren(n.kind@))
    } else {
        match expr_of(c[0]) {
            Err(e) => Err(e),
            Ok(a) => if n.kind@ == "CStyleCastExpr"@ && qual_type_of(n) is Some {
                Ok(ExprView::Cast(Box::new(a), ctype_of(qual_type_of(n)->0)))
            } else {
                Ok(a)
            },
        }
    }
}

/// A `ParenExpr` is its child.
pub open spec fn paren_of(n: Node) -> Result<ExprView, ErrView>
    decreases n, 4int,
{
    if n.inner@.len() == 0 {
        Err(ErrView::NoChildren("ParenExpr"@))
    } else {
        expr_of(n.inner@[0])
    }
}

/// A `MemberExpr`: field access, through a dereference where the base
/// is a pointer.
pub open spec fn member_of(n: Node) -> Result<ExprView, ErrView>
    decreases n, 4int,
{
    let c = n.inner@;
    if c.len() == 0 {
        Err(ErrView::NoChildren("MemberExpr"@))
    } else {
        match expr_of(c[0]) {
            Err(e) => Err(e),
            Ok(b) => {
                let base = if base_type_of(b) matches Some(CTypeView::CPtr(_)) {
                    ExprView::Deref(Box::new(b))
                } else {
                    b
                };
                let field = match n.name {
                    Some(f) => f@,
                    None => "?"@,
                };
                Ok(ExprView::FieldAccess(Box::new(base), field))
            },
        }
    }
}

/// An `ArraySubscriptExpr`.
pub open spec fn subscript_of(n: Node) -> Result<ExprView, ErrView>
    decreases n, 4int,
{
    let c = n.inner@;
    if c.len() < 2 {
        Err(ErrView::TooFewChildren("ArraySubscriptExpr"@, 2))
    } else {
        match expr_of(c[0]) {
            Err(e) => Err(e),
            Ok(x) => match expr_of(c[1]) {
                Err(e) => Err(e),
                Ok(y) => Ok(ExprView::ArraySubscript(Box::new(x), Box::new(y))),
            },
        }
    }
}

/// A `StringLiteral`: its value without the surrounding quotes.
pub open spec fn string_lit_of(n: Node) -> Result<ExprView, ErrView> {
    let v = match n.value {
        Some(v) => v@,
        None => "\"\""@,
    };
    Ok(ExprView::StringLit(trim_end_char(trim_start_char(v, '"'), '"')))
}

/// `sizeof`: the size of the operand's type (the first child's, or that
/// child's first child's), 8 where there is none.
pub open spec fn sizeof_of(n: Node) -> Result<ExprView, ErrView> {
    let c = n.inner@;
    let operand = if c.len() == 0 {
        None
    } else if qual_type_of(c[0]) is Some {
        qual_type_of(c[0])
    } else if c[0].inner@.len() > 0 {
        qual_type_of(c[0].inner@[0])
    } else {
        None
    };
    Ok(ExprView::SizeOf(
        match operand {
            Some(t) => type_size(t),
            None => 8,
        },
    ))
}

/// A GNU statement expression: all but the last child of its compound as
/// statements, the last as the value; 0 for an empty compound.
pub open spec fn stmt_expr_of(n: Node) -> Result<ExprView, ErrView>
    decreases n, 4int,
{
    let c = n.inner@;
    if c.len() == 0 {
        Err(ErrView::NoChildren("StmtExpr"@))
    } else if c[0].inner@.len() == 0 {
        Ok(ExprView::IntLit(0, IntWidth::W32))
    } else {
        match stmts_of(c[0].inner@.drop_last()) {
            Err(e) => Err(e),
            Ok(ss) => match expr_of(c[0].inner@.last()) {
                Err(e) => Err(e),
                Ok(v) => Ok(ExprView::StmtExpr(ss, Box::new(v))),
            },
        }
    }
}

/// An initialiser list.
pub open spec fn init_list_of(n: Node) -> Result<ExprView, ErrView>
    decreases n, 4int,
{
    match exprs_of(n.inner@) {
        Err(e) => Err(e),
        Ok(es) => Ok(ExprView::InitList(es)),
    }
}

/// Zero-initialisation: a zero of the type's width.
pub open spec fn value_init_of(n: Node) -> Result<ExprView, ErrView> {
    let t = match qual_type_of(n) {
        Some(t) => t,
        None => "int"@,
    };
    Ok(ExprView::IntLit(0, int_width_of(t)))
}

/// A `ConstantExpr`: its child, or without one its own value (0 where it
/// has none or it is no number).
pub open spec fn constant_of(n: Node) -> Result<ExprView, ErrView>
    decreases n, 4int,
{
    if n.inner@.len() == 0 {
        let v = match n.value {
            Some(v) => v@,
            None => "0"@,
        };
        Ok(ExprView::IntLit(
            match parse_i64(v) {
                Some(x) => x,
                None => 0,
            },
            IntWidth::W32,
        ))
    } else {
        expr_of(n.inner@[0])
    }
}

/// The expression a node converts to, or the first error met, children
/// left to right.
pub open spec fn expr_of(n: Node) -> Result<ExprView, ErrView>
    decreases n, 5int,
{
    let k = n.kind@;
    if k == "IntegerLiteral"@ {
        int_lit_of(n)
    } else if k == "DeclRefExpr"@ {
        decl_ref_of(n)
    } else if k == "BinaryOperator"@ || k == "CompoundAssignOperator"@ {
        binary_node_of(n)
    } else if k == "UnaryOperator"@ {
        unary_node_of(n)
    } else if k == "CallExpr"@ {
        call_of(n)
    } else if k == "ConditionalOperator"@ {
        conditional_of(n)
    } else if k == "ImplicitCastExpr"@ || k == "CStyleCastExpr"@ {
        cast_of(n)
    } else if k == "ParenExpr"@ {
        paren_of(n)
    } else if k == "MemberExpr"@ {
        member_of(n)
    } else if k == "ArraySubscriptExpr"@ {
        subscript_of(n)
    } else if k == "StringLiteral"@ {
        string_lit_of(n)
    } else if k == "UnaryExprOrTypeTraitExpr"@ {
        sizeof_of(n)
    } else if k == "StmtExpr"@ {
        stmt_expr_of(n)
    } else if k == "InitListExpr"@ {
        init_list_of(n)
    } else if k == "ImplicitValueInitExpr"@ {
        value_init_of(n)
    } else if k == "ConstantExpr"@ {
        constant_of(n)
    } else if k == Seq::<char>::empty() {
        Ok(ExprView::IntLit(0, IntWidth::W32))
    } else {
        Err(ErrView::UnknownExprKind(k, qual_type_of(n)))
    }
}

/// The expressions a sequence of nodes converts to, or the first error.
pub open spec fn exprs_of(s: Seq<Node>) -> Result<Seq<ExprView>, ErrView>
    decreases s, 0int,
{
    if s.len() == 0 {
        Ok(Seq::empty())
    } else {
        match expr_of(s[0]) {
            Err(e) => Err(e),
            Ok(x) => match exprs_of(s.drop_first()) {
                Err(e) => Err(e),
                Ok(xs) => Ok(seq![x] + xs),
            },
        }
    }
}

/// The statements a sequence of nodes converts to, or the first error.
pub open spec fn stmts_of(s: Seq<Node>) -> Result<Seq<StmtView>, ErrView>
    decreases s, 0int,
{
    if s.len() == 0 {
        Ok(Seq::empty())
    } else {
        match stmt_of(s[0]) {
            Err(e) => Err(e),
            Ok(x) => match stmts_of(s.drop_first()) {
                Err(e) => Err(e),
                Ok(xs) => Ok(seq![x] + xs),
            },
        }
    }
}

/// `x = e` as a statement, where `x` is a plain variable.
pub open spec fn assign_of(n: Node) -> Result<Option<StmtView>, ErrView>
    decreases n, 1int,
{
    if n.inner@.len() < 2 {
        Ok(None)
    } else {
        match var_name_of(n.inner@[0]) {
            None => Ok(None),
            Some(name) => match expr_of(n.inner@[1]) {
                Err(e) => Err(e),
                Ok(v) => Ok(Some(StmtView::Assign(name, v))),
            },
        }
    }
}

/// `x op= e` as `x = x op e`, where `x` is a plain variable.
pub open spec fn compound_assign_of(n: Node) -> Result<Option<StmtView>, ErrView>
    decreases n, 1int,
{
    if n.inner@.len() < 2 {
        Ok(None)
    } else {
        match n.opcode {
            None => Err(ErrView::MissingOpcode("CompoundAssignOperator"@)),
            Some(op) => match compound_op_of(op@) {
                None => Ok(None),
                Some(b) => match var_name_of(n.inner@[0]) {
                    None => Ok(None),
                    Some(name) => match binary_of(b, expr_of(n.inner@[0]), expr_of(n.inner@[1])) {
                        Err(e) => Err(e),
                        Ok(v) => Ok(Some(StmtView::Assign(name, v))),
                    },
                },
            },
        }
    }
}

/// `x++` or `x--` as `x = x + 1` or `x = x - 1`, where `x` is a plain
/// variable.
pub open spec fn inc_dec_of(n: Node, inc: bool) -> Result<Option<StmtView>, ErrView>
    decreases n, 1int,
{
    if n.inner@.len() == 0 {
        Ok(None)
    } else {
        match var_name_of(n.inner@[0]) {
            None => Ok(None),
            Some(name) => match expr_of(n.inner@[0]) {
                Err(e) => Err(e),
                Ok(v) => Ok(
                    Some(
                        StmtView::Assign(
                            name,
                            ExprView::BinOp(
                                if inc { BinOp::Add } else { BinOp::Sub },
                                Box::new(v),
                                Box::new(ExprView::IntLit(1, IntWidth::W32)),
                            ),
                        ),
                    ),
                ),
            },
        }
    }
}

/// A `DeclStmt`: its first `VarDecl`, with the last non-type child as
/// the initialiser.
pub open spec fn decl_of(n: Node) -> Result<StmtView, ErrView>
    decreases n, 6int,
{
    let c = n.inner@;
    match first_of_kind(c, "VarDecl"@) {
        None => Err(ErrView::DeclWithoutVar),
        Some(i) => {
            proof {
                lemma_first_of_kind(c, "VarDecl"@);
            }
            let d = c[i];
            let name = match d.name {
                Some(x) => x@,
                None => "?"@,
            };
            let t = ctype_or(qual_type_of(d), CTypeView::CInt(IntWidth::W32));
            if d.inner@.len() == 0 {
                Ok(StmtView::Declare(name, t, None))
            } else {
                proof {
                    lemma_last_init(d.inner@);
                }
                match last_init(d.inner@) {
                    None => Ok(StmtView::Declare(name, t, None)),
                    Some(j) => match expr_of(d.inner@[j]) {
                        Err(e) => Err(e),
                        Ok(v) => Ok(StmtView::Declare(name, t, Some(v))),
                    },
                }
            }
        },
    }
}

/// A `ReturnStmt`, with its first child as the value.
pub open spec fn return_of(n: Node) -> Result<StmtView, ErrView>
    decreases n, 6int,
{
    if n.inner@.len() == 0 {
        Ok(StmtView::Return(None))
    } else {
        match expr_of(n.inner@[0]) {
            Err(e) => Err(e),
            Ok(v) => Ok(StmtView::Return(Some(v))),
        }
    }
}

/// An `IfStmt`: condition, then-branch, and else-branch (empty without a
/// third child).
pub open spec fn if_of(n: Node) -> Result<StmtView, ErrView>
    decreases n, 6int,
{
    let c = n.inner@;
    if c.len() < 2 {
        Err(ErrView::TooFewChildren("IfStmt"@, 2))
    } else {
        match expr_of(c[0]) {
            Err(e) => Err(e),
            Ok(cond) => match stmt_of(c[1]) {
                Err(e) => Err(e),
                Ok(t) => {
                    let e = if c.len() > 2 { stmt_of(c[2]) } else { Ok(StmtView::Compound(Seq::empty())) };
                    match e {
                        Err(x) => Err(x),
                        Ok(f) => Ok(StmtView::If(cond, branch_of(t), branch_of(f))),
                    }
                },
            },
        }
    }
}

/// A node whose children form a compound statement.
pub open spec fn compound_of(n: Node) -> Result<StmtView, ErrView>
    decreases n, 6int,
{
    match stmts_of(n.inner@) {
        Err(e) => Err(e),
        Ok(ss) => Ok(StmtView::Compound(ss)),
    }
}

/// A `LabelStmt` around its first child.
pub open spec fn label_of(n: Node) -> Result<StmtView, ErrView>
    decreases n, 6int,
{
    let label = match n.name {
        Some(x) => x@,
        None => "?"@,
    };
    if n.inner@.len() == 0 {
        Ok(StmtView::Label(label, Box::new(StmtView::Compound(Seq::empty()))))
    } else {
        match stmt_of(n.inner@[0]) {
            Err(e) => Err(e),
            Ok(b) => Ok(StmtView::Label(label, Box::new(b))),
        }
    }
}

/// A `SwitchStmt`: the condition, then the arms of its body.
pub open spec fn switch_of(n: Node) -> Result<StmtView, ErrView>
    decreases n, 6int,
{
    let c = n.inner@;
    if c.len() < 2 {
        Err(ErrView::TooFewChildren("SwitchStmt"@, 2))
    } else {
        match expr_of(c[0]) {
            Err(e) => Err(e),
            Ok(cond) => {
                let cs = if c[1].kind@ == "CompoundStmt"@ {
                    cases_of(c[1].inner@, Seq::empty())
                } else {
                    case_step(c[1], Seq::empty())
                };
                match cs {
                    Err(e) => Err(e),
                    Ok(cases) => Ok(StmtView::Switch(cond, cases)),
                }
            },
        }
    }
}

/// Any other node: an assignment to a plain variable (plain, compound,
/// or by `++`/`--`) where it is one, otherwise the expression evaluated
/// for its effect.
pub open spec fn other_stmt_of(n: Node) -> Result<StmtView, ErrView>
    decreases n, 6int,
{
    let k = n.kind@;
    let a = if k == "BinaryOperator"@ && n.opcode is Some && n.opcode->0@ == "="@ {
        assign_of(n)
    } else {
        Ok(None)
    };
    match a {
        Err(e) => Err(e),
        Ok(Some(st)) => Ok(st),
        Ok(None) => {
            let b = if k == "CompoundAssignOperator"@ { compound_assign_of(n) } else { Ok(None) };
            match b {
                Err(e) => Err(e),
                Ok(Some(st)) => Ok(st),
                Ok(None) => {
                    let d = if k == "UnaryOperator"@ && n.opcode is Some && (n.opcode->0@ == "++"@
                        || n.opcode->0@ == "--"@) {
                        inc_dec_of(n, n.opcode->0@ == "++"@)
                    } else {
                        Ok(None)
                    };
                    match d {
                        Err(e) => Err(e),
                        Ok(Some(st)) => Ok(st),
                        Ok(None) => match expr_of(n) {
                            Err(e) => Err(e),
                            Ok(v) => Ok(StmtView::ExprStmt(v)),
                        },
                    }
                },
            }
        },
    }
}

/// The statement a node converts to, or the first error.
pub open spec fn stmt_of(n: Node) -> Result<StmtView, ErrView>
    decreases n, 7int,
{
    let k = n.kind@;
    if k == "DeclStmt"@ {
        decl_of(n)
    } else if k == "ReturnStmt"@ {
        return_of(n)
    } else if k == "IfStmt"@ {
        if_of(n)
    } else if k == "CompoundStmt"@ {
        compound_of(n)
    } else if k == "GotoStmt"@ {
        Ok(StmtView::Goto(
            match n.name {
                Some(x) => x@,
                None => "?"@,
            },
        ))
    } else if k == "LabelStmt"@ {
        label_of(n)
    } else if k == "SwitchStmt"@ {
        switch_of(n)
    } else if k == "BreakStmt"@ {
        Ok(StmtView::Break)
    } else if k == "DefaultStmt"@ {
        compound_of(n)
    } else {
        other_stmt_of(n)
    }
}

/// The arms of a `switch` after one more node of its body: a `case`
/// starts an arm with its value and the rest of its children, a
/// `default` one without a value, and any other statement joins the last
/// arm (or is dropped where there is none yet).
pub open spec fn case_step(n: Node, acc: Seq<CaseView>) -> Result<Seq<CaseView>, ErrView>
    decreases n, 8int,
{
    let c = n.inner@;
    if n.kind@ == "CaseStmt"@ {
        if c.len() == 0 {
            Ok(acc)
        } else {
            match expr_of(c[0]) {
                Err(e) => Err(e),
                Ok(v) => match stmts_of(c.drop_first()) {
                    Err(e) => Err(e),
                    Ok(b) => Ok(acc.push(CaseView { value: Some(v), body: b })),
                },
            }
        }
    } else if n.kind@ == "DefaultStmt"@ {
        match stmts_of(c) {
            Err(e) => Err(e),
            Ok(b) => Ok(acc.push(CaseView { value: None, body: b })),
        }
    } else {
        match stmt_of(n) {
            Err(e) => Err(e),
            Ok(st) => if acc.len() > 0 {
                Ok(acc.update(acc.len() - 1, CaseView { value: acc.last().value, body: acc.last().body.push(st) }))
            } else {
                Ok(acc)
            },
        }
    }
}

/// The arms of a `switch` after the nodes of `s`.
pub open spec fn cases_of(s: Seq<Node>, acc: Seq<CaseView>) -> Result<Seq<CaseView>, ErrView>
    decreases s, 0int,
{
    if s.len() == 0 {
        Ok(acc)
    } else {
        match case_step(s[0], acc) {
            Err(e) => Err(e),
            Ok(a) => cases_of(s.drop_first(), a),
        }
    }
}

/// Whether `u` holds exactly the characters of `lit`.
fn is_lit(u: &[char], lit: &str) -> (b: bool)
    ensures
        b == (u@ == lit@),
{
    crate::verify::scan::eq_chars(u, chars_of(lit).as_slice())
}

/// Viewing fields one at a time.
pub proof fn lemma_fields_view_push(s: Seq<(String, CType)>, x: (String, CType))
    ensures
        fields_view(s.push(x)) == fields_view(s).push((x.0@, ctype_view(x.1))),
    decreases s.len(),
{
    if s.len() == 0 {
        assert(s.push(x).drop_first() =~= Seq::<(String, CType)>::empty());
        assert(fields_view(Seq::<(String, CType)>::empty()) =~= Seq::empty());
        assert(fields_view(s) =~= Seq::empty());
        assert(s.push(x)[0] == x);
        assert(fields_view(s.push(x)) =~= fields_view(s).push((x.0@, ctype_view(x.1))));
    } else {
        lemma_fields_view_push(s.drop_first(), x);
        assert(s.push(x).drop_first() =~= s.drop_first().push(x));
        assert(s.push(x)[0] == s[0]);
        assert(fields_view(s.push(x)) == seq![(s[0].0@, ctype_view(s[0].1))] + fields_view(s.drop_first().push(x)));
        assert(fields_view(s.push(x)) =~= fields_view(s).push((x.0@, ctype_view(x.1))));
    }
}

fn push_field(v: &mut Vec<(String, CType)>, name: &str, t: CType)
    ensures
        fields_view(final(v)@) == fields_view(old(v)@).push((name@, ctype_view(t))),
{
    let ghost t0 = t;
    let n = name.to_owned();
    proof {
        lemma_fields_view_push(v@, (n, t0));
    }
    v.push((n, t));
}

/// The known fields of a BPF context struct (see `ctx_fields`).
fn context_struct_fields(struct_name: &[char]) -> (r: Vec<(String, CType)>)
    ensures
        fields_view(r@) == ctx_fields(struct_name@),
{
    let mut r: Vec<(String, CType)> = Vec::new();
    proof {
        reveal_with_fuel(fields_view, 1);
    }
    assert(fields_view(r@) =~= Seq::empty());
    if is_lit(struct_name, "__sk_buff") {
        push_field(&mut r, "len", CType::CUInt(IntWidth::W32));
        push_field(&mut r, "protocol", CType::CUInt(IntWidth::W32));
        push_field(&mut r, "data", CType::CUInt(IntWidth::W32));
        push_field(&mut r, "data_end", CType::CUInt(IntWidth::W32));
        assert(fields_view(r@) =~= ctx_fields(struct_name@));
    } else if is_lit(struct_name, "xdp_md") {
        push_field(&mut r, "data", CType::CUInt(IntWidth::W32));
        push_field(&mut r, "data_end", CType::CUInt(IntWidth::W32));
        push_field(&mut r, "data_meta", CType::CUInt(IntWidth::W32));
        push_field(&mut r, "ingress_ifindex", CType::CUInt(IntWidth::W32));
        push_field(&mut r, "rx_queue_index", CType::CUInt(IntWidth::W32));
        assert(fields_view(r@) =~= ctx_fields(struct_name@));
    } else if is_lit(struct_name, "pt_regs") {
        push_field(&mut r, "di", CType::CUInt(IntWidth::W64));
        push_field(&mut r, "si", CType::CUInt(IntWidth::W64));
        push_field(&mut r, "dx", CType::CUInt(IntWidth::W64));
        push_field(&mut r, "cx", CType::CUInt(IntWidth::W64));
        push_field(&mut r, "r8", CType::CUInt(IntWidth::W64));
        push_field(&mut r, "r9", CType::CUInt(IntWidth::W64));
        push_field(&mut r, "ax", CType::CUInt(IntWidth::W64));
        push_field(&mut r, "sp", CType::CUInt(IntWidth::W64));
        push_field(&mut r, "ip", CType::CUInt(IntWidth::W64));
        assert(fields_view(r@) =~= ctx_fields(struct_name@));
    }
    r
}

/// The C type a basic type name denotes (see `basic_ctype`).
fn basic_ctype_of(s: &[char]) -> (t: CType)
    ensures
        ctype_view(t) == basic_ctype(s@),
{
    if is_lit(s, "void") {
        CType::CVoid
    } else if is_lit(s, "_Bool") || is_lit(s, "bool") {
        CType::CBool
    } else if is_lit(s, "char") || is_lit(s, "unsigned char") || is_lit(s, "__u8") || is_lit(s, "uint8_t")
        || is_lit(s, "u8") {
        CType::CUInt(IntWidth::W8)
    } else if is_lit(s, "unsigned short") || is_lit(s, "__u16") || is_lit(s, "uint16_t") || is_lit(s, "u16") {
        CType::CUInt(IntWidth::W16)
    } else if is_lit(s, "unsigned int") || is_lit(s, "__u32") || is_lit(s, "uint32_t") || is_lit(s, "u32") {
        CType::CUInt(IntWidth::W32)
    } else if is_lit(s, "unsigned long") || is_lit(s, "unsigned long long") || is_lit(s, "__u64")
        || is_lit(s, "uint64_t") || is_lit(s, "u64") {
        CType::CUInt(IntWidth::W64)
    } else if is_lit(s, "signed char") || is_lit(s, "__s8") || is_lit(s, "int8_t") || is_lit(s, "s8") {
        CType::CInt(IntWidth::W8)
    } else if is_lit(s, "short") || is_lit(s, "__s16") || is_lit(s, "int16_t") || is_lit(s, "s16") {
        CType::CInt(IntWidth::W16)
    } else if is_lit(s, "int") || is_lit(s, "__s32") || is_lit(s, "int32_t") || is_lit(s, "s32") {
        CType::CInt(IntWidth::W32)
    } else if is_lit(s, "long") || is_lit(s, "long long") || is_lit(s, "__s64") || is_lit(s, "int64_t")
        || is_lit(s, "s64") {
        CType::CInt(IntWidth::W64)
    } else if starts_with(s, chars_of("struct ").as_slice()) {
        proof {
            reveal_strlit("struct ");
        }
        let rest = slice_of(s, 7, s.len());
        assert(rest@ =~= s@.skip(7));
        let n = trim_of(rest.as_slice());
        let fields = context_struct_fields(n.as_slice());
        CType::CStruct(StructDef { name: string_of(n.as_slice()), fields })
    } else if ends_with(s, chars_of("_t").as_slice()) {
        CType::CInt(IntWidth::W32)
    } else {
        CType::CUInt(IntWidth::W64)
    }
}

/// `v` trimmed, without a leading `const ` and then a trailing ` const`.
fn unqualified_of(v: &[char]) -> (r: Vec<char>)
    ensures
        r@ == unqualified(v@),
{
    proof {
        reveal_strlit("const ");
        reveal_strlit(" const");
    }
    let t = trim_of(v);
    let t2 = if starts_with(t.as_slice(), chars_of("const ").as_slice()) {
        let x = slice_of(t.as_slice(), 6, t.len());
        assert(x@ =~= t@.skip(6));
        x
    } else {
        t
    };
    if ends_with(t2.as_slice(), chars_of(" const").as_slice()) {
        let x = slice_of(t2.as_slice(), 0, t2.len() - 6);
        assert(x@ =~= t2@.take(t2@.len() - 6));
        x
    } else {
        t2
    }
}

fn ctype_from(v: &[char]) -> (t: CType)
    ensures
        ctype_view(t) == ctype_of(v@),
    decreases v@.len(),
{
    let u = unqualified_of(v);
    proof {
        lemma_unqualified_len(v@);
    }
    if u.len() > 0 && u[u.len() - 1] == '*' {
        let head = slice_of(u.as_slice(), 0, u.len() - 1);
        assert(head@ =~= u@.drop_last());
        let inner = trim_of(head.as_slice());
        proof {
            lemma_trim_len(head@);
        }
        let t = ctype_from(inner.as_slice());
        return CType::CPtr(Box::new(t));
    }
    let open = vec!['['];
    match find_in(u.as_slice(), open.as_slice()) {
        Some(p) => {
            proof {
                lemma_find_from_bounds(u@, seq!['['], 0);
                assert(open@ =~= seq!['[']);
            }
            let rest = slice_of(u.as_slice(), p + 1, u.len());
            assert(rest@ =~= u@.skip(p + 1));
            let size_text = trim_of(trim_end_char_of(rest.as_slice(), ']').as_slice());
            let size: usize = match parse_usize_of(size_text.as_slice()) {
                Some(n) => n,
                None => 0,
            };
            let head = slice_of(u.as_slice(), 0, p);
            assert(head@ =~= u@.take(p as int));
            let elem = trim_of(head.as_slice());
            proof {
                lemma_trim_len(head@);
            }
            let t = ctype_from(elem.as_slice());
            CType::CArray(Box::new(t), size)
        },
        None => {
            assert(open@ =~= seq!['[']);
            basic_ctype_of(u.as_slice())
        },
    }
}

/// Parse a C type string from Clang (see `ctype_of`). Every string
/// denotes some type, so this always succeeds.
pub fn parse_c_type(type_str: &str) -> (r: Result<CType, ConvertError>)
    ensures
        r is Ok,
        r matches Ok(t) && ctype_view(t) == ctype_of(type_str@),
{
    Ok(ctype_from(chars_of(type_str).as_slice()))
}

// ---------------------------------------------------------------------
// Converting expressions and statements

pub open spec fn res_expr(r: Result<Expr, ConvertError>) -> Result<ExprView, ErrView> {
    match r {
        Ok(e) => Ok(expr_view(e)),
        Err(e) => Err(err_view(e)),
    }
}

pub open spec fn res_exprs(r: Result<Vec<Expr>, ConvertError>) -> Result<Seq<ExprView>, ErrView> {
    match r {
        Ok(v) => Ok(exprs_view(v@)),
        Err(e) => Err(err_view(e)),
    }
}

pub open spec fn res_stmt(r: Result<Stmt, ConvertError>) -> Result<StmtView, ErrView> {
    match r {
        Ok(s) => Ok(stmt_view(s)),
        Err(e) => Err(err_view(e)),
    }
}

pub open spec fn res_stmts(r: Result<Vec<Stmt>, ConvertError>) -> Result<Seq<StmtView>, ErrView> {
    match r {
        Ok(v) => Ok(stmts_view(v@)),
        Err(e) => Err(err_view(e)),
    }
}

pub open spec fn res_opt_stmt(r: Result<Option<Stmt>, ConvertError>) -> Result<Option<StmtView>, ErrView> {
    match r {
        Ok(Some(s)) => Ok(Some(stmt_view(s))),
        Ok(None) => Ok(None),
        Err(e) => Err(err_view(e)),
    }
}

pub proof fn lemma_exprs_view_push(s: Seq<Expr>, x: Expr)
    ensures
        exprs_view(s.push(x)) == exprs_view(s).push(expr_view(x)),
    decreases s.len(),
{
    assert(s.push(x)[0] == (if s.len() == 0 { x } else { s[0] }));
    if s.len() == 0 {
        assert(s.push(x).drop_first() =~= Seq::<Expr>::empty());
        assert(exprs_view(Seq::<Expr>::empty()) =~= Seq::empty());
        assert(exprs_view(s) =~= Seq::empty());
    } else {
        lemma_exprs_view_push(s.drop_first(), x);
        assert(s.push(x).drop_first() =~= s.drop_first().push(x));
    }
    assert(exprs_view(s.push(x)) =~= exprs_view(s).push(expr_view(x)));
}

pub proof fn lemma_stmts_view_push(s: Seq<Stmt>, x: Stmt)
    ensures
        stmts_view(s.push(x)) == stmts_view(s).push(stmt_view(x)),
    decreases s.len(),
{
    assert(s.push(x)[0] == (if s.len() == 0 { x } else { s[0] }));
    if s.len() == 0 {
        assert(s.push(x).drop_first() =~= Seq::<Stmt>::empty());
        assert(stmts_view(Seq::<Stmt>::empty()) =~= Seq::empty());
        assert(stmts_view(s) =~= Seq::empty());
    } else {
        lemma_stmts_view_push(s.drop_first(), x);
        assert(s.push(x).drop_first() =~= s.drop_first().push(x));
    }
    assert(stmts_view(s.push(x)) =~= stmts_view(s).push(stmt_view(x)));
}

pub proof fn lemma_cases_view_push(s: Seq<SwitchCase>, x: SwitchCase)
    ensures
        cases_view(s.push(x)) == cases_view(s).push(
            CaseView { value: opt_expr_view(x.value), body: stmts_view(x.body@) },
        ),
    decreases s.len(),
{
    assert(s.push(x)[0] == (if s.len() == 0 { x } else { s[0] }));
    if s.len() == 0 {
        assert(s.push(x).drop_first() =~= Seq::<SwitchCase>::empty());
        assert(cases_view(Seq::<SwitchCase>::empty()) =~= Seq::empty());
        assert(cases_view(s) =~= Seq::empty());
    } else {
        lemma_cases_view_push(s.drop_first(), x);
        assert(s.push(x).drop_first() =~= s.drop_first().push(x));
    }
    assert(cases_view(s.push(x)) =~= cases_view(s).push(
        CaseView { value: opt_expr_view(x.value), body: stmts_view(x.body@) },
    ));
}

impl CType {
    /// A copy of the type.
    pub fn dup(&self) -> (r: CType)
        ensures
            ctype_view(r) == ctype_view(*self),
        decreases self,
    {
        match self {
            CType::CInt(w) => CType::CInt(*w),
            CType::CUInt(w) => CType::CUInt(*w),
            CType::CBool => CType::CBool,
            CType::CVoid => CType::CVoid,
            CType::CPtr(b) => CType::CPtr(Box::new((**b).dup())),
            CType::CPtrOrNull(b) => CType::CPtrOrNull(Box::new((**b).dup())),
            CType::CStruct(d) => CType::CStruct(StructDef { name: d.name.clone(), fields: dup_fields(&d.fields) }),
            CType::CArray(b, n) => CType::CArray(Box::new((**b).dup()), *n),
        }
    }
}

/// A copy of a struct's fields.
fn dup_fields(f: &Vec<(String, CType)>) -> (r: Vec<(String, CType)>)
    ensures
        fields_view(r@) == fields_view(f@),
    decreases f@,
{
    let mut fields: Vec<(String, CType)> = Vec::new();
    let mut i: usize = 0;
    assert(f@.take(0) =~= Seq::<(String, CType)>::empty());
    while i < f.len()
        invariant
            i <= f@.len(),
            fields_view(fields@) == fields_view(f@.take(i as int)),
        decreases f@.len() - i,
    {
        let t = f[i].1.dup();
        let n = f[i].0.clone();
        proof {
            lemma_fields_view_push(fields@, (n, t));
            lemma_fields_view_push(f@.take(i as int), f@[i as int]);
            assert(f@.take(i + 1) =~= f@.take(i as int).push(f@[i as int]));
        }
        fields.push((n, t));
        i = i + 1;
    }
    assert(f@.take(i as int) =~= f@);
    fields
}

/// The variable named by an assignment's left side, looking through
/// implicit casts.
fn extract_lhs_var_name(node: &Node) -> (r: Option<String>)
    ensures
        opt_chars(r) == var_name_of(*node),
    decreases node,
{
    if str_eq(node.kind.as_str(), "DeclRefExpr") {
        match node.ref_name() {
            Some(n) => Some(n.to_owned()),
            None => None,
        }
    } else if str_eq(node.kind.as_str(), "ImplicitCastExpr") && node.inner.len() > 0 {
        extract_lhs_var_name(&node.inner[0])
    } else {
        None
    }
}

/// The function a call's first child names (see `var_name_of`).
fn extract_call_name(node: &Node) -> (r: Option<String>)
    ensures
        opt_chars(r) == var_name_of(*node),
{
    extract_lhs_var_name(node)
}

/// The width a type string names (see `int_width_of`).
fn type_to_int_width(type_str: &str) -> (w: IntWidth)
    ensures
        w == int_width_of(type_str@),
{
    let t = chars_of(type_str);
    if contains_in(t.as_slice(), chars_of("64").as_slice()) || contains_in(t.as_slice(), chars_of("long long").as_slice()) {
        IntWidth::W64
    } else if contains_in(t.as_slice(), chars_of("16").as_slice()) || contains_in(t.as_slice(), chars_of("short").as_slice()) {
        IntWidth::W16
    } else if contains_in(t.as_slice(), chars_of("8").as_slice()) || contains_in(t.as_slice(), chars_of("char").as_slice()) {
        IntWidth::W8
    } else {
        IntWidth::W32
    }
}

/// The byte size a type string names (see `type_size`).
fn estimate_type_size(type_str: &str) -> (n: u64)
    ensures
        n == type_size(type_str@),
{
    let s = trim_of(chars_of(type_str).as_slice());
    let v = s.as_slice();
    if s.len() > 0 && s[s.len() - 1] == '*' {
        8
    } else if is_lit(v, "void") {
        0
    } else if is_lit(v, "_Bool") || is_lit(v, "bool") {
        1
    } else if is_lit(v, "unsigned char") || is_lit(v, "__u8") || is_lit(v, "uint8_t") || is_lit(v, "u8")
        || is_lit(v, "signed char") || is_lit(v, "__s8") || is_lit(v, "int8_t") || is_lit(v, "s8")
        || is_lit(v, "char") {
        1
    } else if is_lit(v, "unsigned short") || is_lit(v, "__u16") || is_lit(v, "uint16_t") || is_lit(v, "u16")
        || is_lit(v, "short") || is_lit(v, "__s16") || is_lit(v, "int16_t") || is_lit(v, "s16") {
        2
    } else if is_lit(v, "unsigned int") || is_lit(v, "__u32") || is_lit(v, "uint32_t") || is_lit(v, "u32")
        || is_lit(v, "int") || is_lit(v, "__s32") || is_lit(v, "int32_t") || is_lit(v, "s32") {
        4
    } else {
        8
    }
}

/// The binary operator an opcode names (see `binop_of`).
fn parse_binop(op: &str) -> (r: Result<BinOp, ConvertError>)
    ensures
        match binop_of(op@) {
            Some(b) => r == Ok::<BinOp, ConvertError>(b),
            None => r matches Err(e) && err_view(e) == ErrView::UnknownBinaryOp(op@),
        },
{
    let v = chars_of(op);
    let o = v.as_slice();
    if is_lit(o, "+") {
        Ok(BinOp::Add)
    } else if is_lit(o, "-") {
        Ok(BinOp::Sub)
    } else if is_lit(o, "*") {
        Ok(BinOp::Mul)
    } else if is_lit(o, "/") {
        Ok(BinOp::Div)
    } else if is_lit(o, "%") {
        Ok(BinOp::Mod)
    } else if is_lit(o, "&") {
        Ok(BinOp::BitAnd)
    } else if is_lit(o, "|") {
        Ok(BinOp::BitOr)
    } else if is_lit(o, "^") {
        Ok(BinOp::BitXor)
    } else if is_lit(o, "<<") {
        Ok(BinOp::ShiftL)
    } else if is_lit(o, ">>") {
        Ok(BinOp::ShiftR)
    } else if is_lit(o, "==") {
        Ok(BinOp::Eq)
    } else if is_lit(o, "!=") {
        Ok(BinOp::Ne)
    } else if is_lit(o, "<") {
        Ok(BinOp::Lt)
    } else if is_lit(o, "<=") {
        Ok(BinOp::Le)
    } else if is_lit(o, ">") {
        Ok(BinOp::Gt)
    } else if is_lit(o, ">=") {
        Ok(BinOp::Ge)
    } else if is_lit(o, "&&") {
        Ok(BinOp::LAnd)
    } else if is_lit(o, "||") {
        Ok(BinOp::LOr)
    } else {
        Err(ConvertError::UnknownBinaryOp(op.to_owned()))
    }
}

/// The operator of a compound assignment opcode (see `compound_op_of`).
fn compound_op(op: &str) -> (r: Option<BinOp>)
    ensures
        r == compound_op_of(op@),
{
    let v = chars_of(op);
    let o = v.as_slice();
    if is_lit(o, "+=") {
        Some(BinOp::Add)
    } else if is_lit(o, "-=") {
        Some(BinOp::Sub)
    } else if is_lit(o, "*=") {
        Some(BinOp::Mul)
    } else if is_lit(o, "/=") {
        Some(BinOp::Div)
    } else if is_lit(o, "%=") {
        Some(BinOp::Mod)
    } else if is_lit(o, "&=") {
        Some(BinOp::BitAnd)
    } else if is_lit(o, "|=") {
        Some(BinOp::BitOr)
    } else if is_lit(o, "^=") {
        Some(BinOp::BitXor)
    } else if is_lit(o, "<<=") {
        Some(BinOp::ShiftL)
    } else if is_lit(o, ">>=") {
        Some(BinOp::ShiftR)
    } else {
        None
    }
}

/// The approximate C type of an expression (see `base_type_of`).
fn base_type(expr: &Expr) -> (r: Option<CType>)
    ensures
        match r {
            Some(t) => base_type_of(expr_view(*expr)) == Some(ctype_view(t)),
            None => base_type_of(expr_view(*expr)) is None,
        },
    decreases expr,
{
    match expr {
        Expr::VarRef(_, ty) => Some(ty.dup()),
        Expr::Deref(inner) => match base_type(&**inner) {
            Some(CType::CPtr(t)) => Some(*t),
            _ => None,
        },
        Expr::Cast(_, ty) => Some(ty.dup()),
        _ => None,
    }
}

/// `v` without leading `c`s.
fn trim_start_char_of(v: &[char], c: char) -> (r: Vec<char>)
    ensures
        r@ == trim_start_char(v@, c),
{
    let mut k: usize = 0;
    assert(v@.skip(0) =~= v@);
    while k < v.len() && v[k] == c
        invariant
            k <= v@.len(),
            trim_start_char(v@.skip(k as int), c) == trim_start_char(v@, c),
        decreases v@.len() - k,
    {
        assert(v@.skip(k as int).drop_first() =~= v@.skip(k + 1));
        k = k + 1;
    }
    let r = slice_of(v, k, v.len());
    assert(r@ =~= v@.skip(k as int));
    r
}

/// The type a node's printed type denotes, or `d` where it has none.
fn node_ctype_or(n: &Node, d: CType) -> (t: CType)
    ensures
        ctype_view(t) == ctype_or(qual_type_of(*n), ctype_view(d)),
{
    match n.qual_type() {
        Some(q) => ctype_from(chars_of(q).as_slice()),
        None => d,
    }
}

/// Convert the expressions `s[from..to]`.
fn convert_expr_range(s: &Vec<Node>, from: usize, to: usize) -> (r: Result<Vec<Expr>, ConvertError>)
    requires
        from <= to <= s@.len(),
    ensures
        res_exprs(r) == exprs_of(s@.subrange(from as int, to as int)),
    decreases s@, 1int,
{
    let mut out: Vec<Expr> = Vec::new();
    let mut i: usize = from;
    assert(exprs_view(out@) =~= Seq::empty());
    while i < to
        invariant
            from <= i <= to <= s@.len(),
            exprs_of(s@.subrange(from as int, to as int)) == (match exprs_of(s@.subrange(i as int, to as int)) {
                Ok(v) => Ok(exprs_view(out@) + v),
                Err(e) => Err(e),
            }),
        decreases to - i,
    {
        assert(s@.subrange(i as int, to as int).drop_first() =~= s@.subrange(i + 1, to as int));
        assert(s@.subrange(i as int, to as int)[0] == s@[i as int]);
        match convert_expr(&s[i]) {
            Err(e) => {
                return Err(e);
            },
            Ok(x) => {
                proof {
                    lemma_exprs_view_push(out@, x);
                    assert(exprs_view(out@.push(x)) + exprs_of(s@.subrange(i + 1, to as int))->Ok_0
                        =~= exprs_view(out@) + (seq![expr_view(x)] + exprs_of(s@.subrange(i + 1, to as int))->Ok_0));
                }
                out.push(x);
            },
        }
        i = i + 1;
    }
    assert(s@.subrange(i as int, to as int) =~= Seq::<Node>::empty());
    assert(exprs_view(out@) + Seq::<ExprView>::empty() =~= exprs_view(out@));
    Ok(out)
}

/// Convert the statements `s[from..to]`.
fn convert_stmt_range(s: &Vec<Node>, from: usize, to: usize) -> (r: Result<Vec<Stmt>, ConvertError>)
    requires
        from <= to <= s@.len(),
    ensures
        res_stmts(r) == stmts_of(s@.subrange(from as int, to as int)),
    decreases s@, 1int,
{
    let mut out: Vec<Stmt> = Vec::new();
    let mut i: usize = from;
    assert(stmts_view(out@) =~= Seq::empty());
    while i < to
        invariant
            from <= i <= to <= s@.len(),
            stmts_of(s@.subrange(from as int, to as int)) == (match stmts_of(s@.subrange(i as int, to as int)) {
                Ok(v) => Ok(stmts_view(out@) + v),
                Err(e) => Err(e),
            }),
        decreases to - i,
    {
        assert(s@.subrange(i as int, to as int).drop_first() =~= s@.subrange(i + 1, to as int));
        assert(s@.subrange(i as int, to as int)[0] == s@[i as int]);
        match convert_stmt(&s[i]) {
            Err(e) => {
                return Err(e);
            },
            Ok(x) => {
                proof {
                    lemma_stmts_view_push(out@, x);
                    assert(stmts_view(out@.push(x)) + stmts_of(s@.subrange(i + 1, to as int))->Ok_0
                        =~= stmts_view(out@) + (seq![stmt_view(x)] + stmts_of(s@.subrange(i + 1, to as int))->Ok_0));
                }
                out.push(x);
            },
        }
        i = i + 1;
    }
    assert(s@.subrange(i as int, to as int) =~= Seq::<Node>::empty());
    assert(stmts_view(out@) + Seq::<StmtView>::empty() =~= stmts_view(out@));
    Ok(out)
}

/// Convert a `CompoundStmt`'s children.
fn convert_compound_stmt(node: &Node) -> (r: Result<Vec<Stmt>, ConvertError>)
    ensures
        res_stmts(r) == stmts_of(node.inner@),
    decreases node, 1int,
{
    assert(node.inner@.subrange(0, node.inner@.len() as int) =~= node.inner@);
    convert_stmt_range(&node.inner, 0, node.inner.len())
}

/// An `IntegerLiteral` (see `int_lit_of`).
fn convert_int_lit(node: &Node) -> (r: Result<Expr, ConvertError>)
    ensures
        res_expr(r) == int_lit_of(*node),
{
    let v = match &node.value {
        Some(v) => v,
        None => {
            return Err(ConvertError::MissingLiteralValue);
        },
    };
    let val = match parse_i64_of(chars_of(v.as_str()).as_slice()) {
        Some(x) => x,
        None => {
            return Err(ConvertError::BadIntegerLiteral(v.clone()));
        },
    };
    let type_str = match node.qual_type() {
        Some(t) => t,
        None => "int",
    };
    let width = type_to_int_width(type_str);
    let t = chars_of(type_str);
    let is_unsigned = contains_in(t.as_slice(), chars_of("unsigned").as_slice()) || starts_with(
        t.as_slice(),
        chars_of("__u").as_slice(),
    ) || starts_with(t.as_slice(), chars_of("uint").as_slice());
    if is_unsigned {
        Ok(Expr::UIntLit(val as u64, width))
    } else {
        Ok(Expr::IntLit(val, width))
    }
}

/// A `DeclRefExpr` (see `decl_ref_of`).
fn convert_decl_ref(node: &Node) -> (r: Result<Expr, ConvertError>)
    ensures
        res_expr(r) == decl_ref_of(*node),
{
    let name = match node.ref_name() {
        Some(x) => x.to_owned(),
        None => {
            return Err(ConvertError::MissingReferencedDecl);
        },
    };
    let ty = node_ctype_or(node, CType::CInt(IntWidth::W32));
    Ok(Expr::VarRef(name, ty))
}

/// A binary operator node (see `binary_node_of`).
fn convert_binary(node: &Node) -> (r: Result<Expr, ConvertError>)
    ensures
        res_expr(r) == binary_node_of(*node),
    decreases node, 4int,
{
    let op = match &node.opcode {
        Some(o) => o.as_str(),
        None => {
            return Err(ConvertError::MissingOpcode("BinaryOperator".to_owned()));
        },
    };
    if node.inner.len() < 2 {
        return Err(ConvertError::TooFewChildren("BinaryOperator".to_owned(), 2));
    }
    if str_eq(op, "=") {
        return convert_expr(&node.inner[1]);
    }
    let b = match compound_op(op) {
        Some(b) => b,
        None => match parse_binop(op) {
            Ok(b) => b,
            Err(e) => {
                return Err(e);
            },
        },
    };
    let lhs = match convert_expr(&node.inner[0]) {
        Ok(x) => x,
        Err(e) => {
            return Err(e);
        },
    };
    let rhs = match convert_expr(&node.inner[1]) {
        Ok(x) => x,
        Err(e) => {
            return Err(e);
        },
    };
    let ghost (l, r) = (lhs, rhs);
    let e = Expr::BinOp(b, Box::new(lhs), Box::new(rhs));
    assert(expr_view(e) == ExprView::BinOp(b, Box::new(expr_view(l)), Box::new(expr_view(r))));
    Ok(e)
}

/// A unary operator node (see `unary_node_of`).
fn convert_unary(node: &Node) -> (r: Result<Expr, ConvertError>)
    ensures
        res_expr(r) == unary_node_of(*node),
    decreases node, 4int,
{
    let op = match &node.opcode {
        Some(o) => o.as_str(),
        None => {
            return Err(ConvertError::MissingOpcode("UnaryOperator".to_owned()));
        },
    };
    if node.inner.len() == 0 {
        return Err(ConvertError::NoChildren("UnaryOperator".to_owned()));
    }
    let inner = match convert_expr(&node.inner[0]) {
        Ok(x) => x,
        Err(e) => {
            return Err(e);
        },
    };
    let ghost a = inner;
    let o = chars_of(op);
    let ov = o.as_slice();
    let e = if is_lit(ov, "*") {
        Expr::Deref(Box::new(inner))
    } else if is_lit(ov, "&") {
        Expr::AddrOf(Box::new(inner))
    } else if is_lit(ov, "-") {
        Expr::UnaryOp(UnaryOp::Neg, Box::new(inner))
    } else if is_lit(ov, "~") {
        Expr::UnaryOp(UnaryOp::BitNot, Box::new(inner))
    } else if is_lit(ov, "!") {
        Expr::UnaryOp(UnaryOp::LNot, Box::new(inner))
    } else if is_lit(ov, "++") {
        Expr::UnaryOp(UnaryOp::PreInc, Box::new(inner))
    } else if is_lit(ov, "--") {
        Expr::UnaryOp(UnaryOp::PreDec, Box::new(inner))
    } else {
        return Err(ConvertError::UnknownUnaryOp(op.to_owned()));
    };
    assert(unary_of(op@, expr_view(a)) == Some(expr_view(e)));
    Ok(e)
}

/// A `CallExpr` (see `call_of`).
fn convert_call(node: &Node) -> (r: Result<Expr, ConvertError>)
    ensures
        res_expr(r) == call_of(*node),
    decreases node, 4int,
{
    let n = node.inner.len();
    if n == 0 {
        return Err(ConvertError::NoChildren("CallExpr".to_owned()));
    }
    let func_name = match extract_call_name(&node.inner[0]) {
        Some(x) => x,
        None => "<unknown>".to_owned(),
    };
    assert(node.inner@.subrange(1, n as int) =~= node.inner@.drop_first());
    match convert_expr_range(&node.inner, 1, n) {
        Ok(args) => Ok(Expr::Call(func_name, args)),
        Err(e) => Err(e),
    }
}

/// A `ConditionalOperator` (see `conditional_of`).
fn convert_conditional(node: &Node) -> (r: Result<Expr, ConvertError>)
    ensures
        res_expr(r) == conditional_of(*node),
    decreases node, 4int,
{
    if node.inner.len() < 3 {
        return Err(ConvertError::TooFewChildren("ConditionalOperator".to_owned(), 3));
    }
    let c = match convert_expr(&node.inner[0]) {
        Ok(x) => x,
        Err(e) => {
            return Err(e);
        },
    };
    let t = match convert_expr(&node.inner[1]) {
        Ok(x) => x,
        Err(e) => {
            return Err(e);
        },
    };
    let f = match convert_expr(&node.inner[2]) {
        Ok(x) => x,
        Err(e) => {
            return Err(e);
        },
    };
    let ghost (x, y, z) = (c, t, f);
    let e = Expr::Ternary(Box::new(c), Box::new(t), Box::new(f));
    assert(expr_view(e) == ExprView::Ternary(
        Box::new(expr_view(x)),
        Box::new(expr_view(y)),
        Box::new(expr_view(z)),
    ));
    Ok(e)
}

/// A cast (see `cast_of`).
fn convert_cast(node: &Node) -> (r: Result<Expr, ConvertError>)
    ensures
        res_expr(r) == cast_of(*node),
    decreases node, 4int,
{
    if node.inner.len() == 0 {
        return Err(ConvertError::NoChildren(node.kind.clone()));
    }
    let inner = match convert_expr(&node.inner[0]) {
        Ok(x) => x,
        Err(e) => {
            return Err(e);
        },
    };
    if str_eq(node.kind.as_str(), "CStyleCastExpr") {
        if let Some(q) = node.qual_type() {
            return Ok(Expr::Cast(Box::new(inner), ctype_from(chars_of(q).as_slice())));
        }
    }
    Ok(inner)
}

/// A `ParenExpr` (see `paren_of`).
fn convert_paren(node: &Node) -> (r: Result<Expr, ConvertError>)
    ensures
        res_expr(r) == paren_of(*node),
    decreases node, 4int,
{
    if node.inner.len() == 0 {
        return Err(ConvertError::NoChildren("ParenExpr".to_owned()));
    }
    convert_expr(&node.inner[0])
}

/// A `MemberExpr` (see `member_of`).
fn convert_member(node: &Node) -> (r: Result<Expr, ConvertError>)
    ensures
        res_expr(r) == member_of(*node),
    decreases node, 4int,
{
    if node.inner.len() == 0 {
        return Err(ConvertError::NoChildren("MemberExpr".to_owned()));
    }
    let b = match convert_expr(&node.inner[0]) {
        Ok(x) => x,
        Err(e) => {
            return Err(e);
        },
    };
    let field = match &node.name {
        Some(f) => f.clone(),
        None => "?".to_owned(),
    };
    let ghost bv = b;
    let base = match base_type(&b) {
        Some(CType::CPtr(_)) => Expr::Deref(Box::new(b)),
        _ => b,
    };
    assert(expr_view(base) == (if base_type_of(expr_view(bv)) matches Some(CTypeView::CPtr(_)) {
        ExprView::Deref(Box::new(expr_view(bv)))
    } else {
        expr_view(bv)
    }));
    Ok(Expr::FieldAccess(Box::new(base), field))
}

/// An `ArraySubscriptExpr` (see `subscript_of`).
fn convert_subscript(node: &Node) -> (r: Result<Expr, ConvertError>)
    ensures
        res_expr(r) == subscript_of(*node),
    decreases node, 4int,
{
    if node.inner.len() < 2 {
        return Err(ConvertError::TooFewChildren("ArraySubscriptExpr".to_owned(), 2));
    }
    let base = match convert_expr(&node.inner[0]) {
        Ok(x) => x,
        Err(e) => {
            return Err(e);
        },
    };
    let index = match convert_expr(&node.inner[1]) {
        Ok(x) => x,
        Err(e) => {
            return Err(e);
        },
    };
    let ghost (x, y) = (base, index);
    let e = Expr::ArraySubscript(Box::new(base), Box::new(index));
    assert(expr_view(e) == ExprView::ArraySubscript(Box::new(expr_view(x)), Box::new(expr_view(y))));
    Ok(e)
}

/// A `StringLiteral` (see `string_lit_of`).
fn convert_string_lit(node: &Node) -> (r: Result<Expr, ConvertError>)
    ensures
        res_expr(r) == string_lit_of(*node),
{
    let v = match &node.value {
        Some(v) => chars_of(v.as_str()),
        None => chars_of("\"\""),
    };
    let t = trim_end_char_of(trim_start_char_of(v.as_slice(), '"').as_slice(), '"');
    Ok(Expr::StringLit(string_of(t.as_slice())))
}

/// `sizeof` (see `sizeof_of`).
fn convert_sizeof(node: &Node) -> (r: Result<Expr, ConvertError>)
    ensures
        res_expr(r) == sizeof_of(*node),
{
    let operand: Option<&str> = if node.inner.len() == 0 {
        None
    } else {
        match node.inner[0].qual_type() {
            Some(t) => Some(t),
            None => if node.inner[0].inner.len() > 0 {
                node.inner[0].inner[0].qual_type()
            } else {
                None
            },
        }
    };
    let size = match operand {
        Some(t) => estimate_type_size(t),
        None => 8,
    };
    Ok(Expr::SizeOf(size))
}

/// A GNU statement expression (see `stmt_expr_of`).
fn convert_stmt_expr(node: &Node) -> (r: Result<Expr, ConvertError>)
    ensures
        res_expr(r) == stmt_expr_of(*node),
    decreases node, 4int,
{
    if node.inner.len() == 0 {
        return Err(ConvertError::NoChildren("StmtExpr".to_owned()));
    }
    let compound = &node.inner[0];
    let m = compound.inner.len();
    if m == 0 {
        return Ok(Expr::IntLit(0, IntWidth::W32));
    }
    assert(compound.inner@.subrange(0, m - 1) =~= compound.inner@.drop_last());
    let stmts = match convert_stmt_range(&compound.inner, 0, m - 1) {
        Ok(x) => x,
        Err(e) => {
            return Err(e);
        },
    };
    let last = match convert_expr(&compound.inner[m - 1]) {
        Ok(x) => x,
        Err(e) => {
            return Err(e);
        },
    };
    let ghost l = last;
    let e = Expr::StmtExpr(stmts, Box::new(last));
    assert(expr_view(e) == ExprView::StmtExpr(stmts_view(stmts@), Box::new(expr_view(l))));
    Ok(e)
}

/// An initialiser list (see `init_list_of`).
fn convert_init_list(node: &Node) -> (r: Result<Expr, ConvertError>)
    ensures
        res_expr(r) == init_list_of(*node),
    decreases node, 4int,
{
    let n = node.inner.len();
    assert(node.inner@.subrange(0, n as int) =~= node.inner@);
    match convert_expr_range(&node.inner, 0, n) {
        Ok(es) => Ok(Expr::InitList(es)),
        Err(e) => Err(e),
    }
}

/// Zero-initialisation (see `value_init_of`).
fn convert_value_init(node: &Node) -> (r: Result<Expr, ConvertError>)
    ensures
        res_expr(r) == value_init_of(*node),
{
    let t = match node.qual_type() {
        Some(t) => t,
        None => "int",
    };
    Ok(Expr::IntLit(0, type_to_int_width(t)))
}

/// A `ConstantExpr` (see `constant_of`).
fn convert_constant(node: &Node) -> (r: Result<Expr, ConvertError>)
    ensures
        res_expr(r) == constant_of(*node),
    decreases node, 4int,
{
    if node.inner.len() == 0 {
        let v = match &node.value {
            Some(v) => chars_of(v.as_str()),
            None => chars_of("0"),
        };
        let val = match parse_i64_of(v.as_slice()) {
            Some(x) => x,
            None => 0,
        };
        Ok(Expr::IntLit(val, IntWidth::W32))
    } else {
        convert_expr(&node.inner[0])
    }
}

/// Convert an expression node (see `expr_of`).
fn convert_expr(node: &Node) -> (r: Result<Expr, ConvertError>)
    ensures
        res_expr(r) == expr_of(*node),
    decreases node, 5int,
{
    let k = node.kind.as_str();
    if str_eq(k, "IntegerLiteral") {
        convert_int_lit(node)
    } else if str_eq(k, "DeclRefExpr") {
        convert_decl_ref(node)
    } else if str_eq(k, "BinaryOperator") || str_eq(k, "CompoundAssignOperator") {
        convert_binary(node)
    } else if str_eq(k, "UnaryOperator") {
        convert_unary(node)
    } else if str_eq(k, "CallExpr") {
        convert_call(node)
    } else if str_eq(k, "ConditionalOperator") {
        convert_conditional(node)
    } else if str_eq(k, "ImplicitCastExpr") || str_eq(k, "CStyleCastExpr") {
        convert_cast(node)
    } else if str_eq(k, "ParenExpr") {
        convert_paren(node)
    } else if str_eq(k, "MemberExpr") {
        convert_member(node)
    } else if str_eq(k, "ArraySubscriptExpr") {
        convert_subscript(node)
    } else if str_eq(k, "StringLiteral") {
        convert_string_lit(node)
    } else if str_eq(k, "UnaryExprOrTypeTraitExpr") {
        convert_sizeof(node)
    } else if str_eq(k, "StmtExpr") {
        convert_stmt_expr(node)
    } else if str_eq(k, "InitListExpr") {
        convert_init_list(node)
    } else if str_eq(k, "ImplicitValueInitExpr") {
        convert_value_init(node)
    } else if str_eq(k, "ConstantExpr") {
        convert_constant(node)
    } else if chars_of(k).len() == 0 {
        proof {
            assert(k@ =~= Seq::<char>::empty());
        }
        Ok(Expr::IntLit(0, IntWidth::W32))
    } else {
        let t = match node.qual_type() {
            Some(t) => Some(t.to_owned()),
            None => None,
        };
        Err(ConvertError::UnknownExprKind(node.kind.clone(), t))
    }
}

/// `x = e` as an assignment statement (see `assign_of`).
fn try_convert_assignment(node: &Node) -> (r: Result<Option<Stmt>, ConvertError>)
    ensures
        res_opt_stmt(r) == assign_of(*node),
    decreases node, 1int,
{
    if node.inner.len() < 2 {
        return Ok(None);
    }
    match extract_lhs_var_name(&node.inner[0]) {
        Some(name) => match convert_expr(&node.inner[1]) {
            Ok(value) => Ok(Some(Stmt::Assign(name, value))),
            Err(e) => Err(e),
        },
        None => Ok(None),
    }
}

/// `x op= e` as `x = x op e` (see `compound_assign_of`).
fn try_convert_compound_assignment(node: &Node) -> (r: Result<Option<Stmt>, ConvertError>)
    ensures
        res_opt_stmt(r) == compound_assign_of(*node),
    decreases node, 1int,
{
    if node.inner.len() < 2 {
        return Ok(None);
    }
    let op = match &node.opcode {
        Some(o) => o.as_str(),
        None => {
            return Err(ConvertError::MissingOpcode("CompoundAssignOperator".to_owned()));
        },
    };
    let binop = match compound_op(op) {
        Some(b) => b,
        None => {
            return Ok(None);
        },
    };
    match extract_lhs_var_name(&node.inner[0]) {
        Some(name) => {
            let lhs = match convert_expr(&node.inner[0]) {
                Ok(x) => x,
                Err(e) => {
                    return Err(e);
                },
            };
            let rhs = match convert_expr(&node.inner[1]) {
                Ok(x) => x,
                Err(e) => {
                    return Err(e);
                },
            };
            let ghost (l, r) = (lhs, rhs);
            let e = Expr::BinOp(binop, Box::new(lhs), Box::new(rhs));
            assert(expr_view(e) == ExprView::BinOp(binop, Box::new(expr_view(l)), Box::new(expr_view(r))));
            Ok(Some(Stmt::Assign(name, e)))
        },
        None => Ok(None),
    }
}

/// `x++` or `x--` as `x = x + 1` or `x = x - 1` (see `inc_dec_of`).
fn try_convert_inc_dec_stmt(node: &Node, inc: bool) -> (r: Result<Option<Stmt>, ConvertError>)
    ensures
        res_opt_stmt(r) == inc_dec_of(*node, inc),
    decreases node, 1int,
{
    if node.inner.len() == 0 {
        return Ok(None);
    }
    match extract_lhs_var_name(&node.inner[0]) {
        Some(name) => {
            let var_expr = match convert_expr(&node.inner[0]) {
                Ok(x) => x,
                Err(e) => {
                    return Err(e);
                },
            };
            let binop = if inc {
                BinOp::Add
            } else {
                BinOp::Sub
            };
            let one = Expr::IntLit(1, IntWidth::W32);
            assert(expr_view(one) == ExprView::IntLit(1, IntWidth::W32));
            let ghost v = var_expr;
            let e = Expr::BinOp(binop, Box::new(var_expr), Box::new(one));
            assert(expr_view(e) == ExprView::BinOp(
                binop,
                Box::new(expr_view(v)),
                Box::new(ExprView::IntLit(1, IntWidth::W32)),
            ));
            Ok(Some(Stmt::Assign(name, e)))
        },
        None => Ok(None),
    }
}

/// The position of the last child that is not a type node.
fn last_init_index(s: &Vec<Node>) -> (r: Option<usize>)
    ensures
        match r {
            Some(j) => last_init(s@) == Some(j as int),
            None => last_init(s@) is None,
        },
{
    let mut k: usize = s.len();
    assert(s@.take(k as int) =~= s@);
    while k > 0
        invariant
            k <= s@.len(),
            last_init(s@) == last_init(s@.take(k as int)),
        decreases k,
    {
        assert(s@.take(k as int).drop_last() =~= s@.take(k - 1));
        assert(s@.take(k as int).last() == s@[k - 1]);
        let kind = s[k - 1].kind.as_str();
        if !ends_with(chars_of(kind).as_slice(), chars_of("Type").as_slice()) && !str_eq(kind, "BuiltinType") {
            return Some(k - 1);
        }
        k = k - 1;
    }
    None
}

/// The statements of a branch (see `branch_of`).
fn into_branch(st: Stmt) -> (r: Vec<Stmt>)
    ensures
        stmts_view(r@) == branch_of(stmt_view(st)),
{
    match st {
        Stmt::Compound(ss) => ss,
        other => {
            let ghost g = other;
            let mut v: Vec<Stmt> = Vec::new();
            proof {
                lemma_stmts_view_push(v@, g);
                assert(stmts_view(v@) =~= Seq::empty());
            }
            v.push(other);
            assert(stmts_view(v@) =~= seq![stmt_view(g)]);
            v
        },
    }
}

/// The arms of a `switch` after one more node of its body (see
/// `case_step`).
fn case_step_into(node: &Node, cases: &mut Vec<SwitchCase>) -> (r: Result<(), ConvertError>)
    ensures
        match case_step(*node, cases_view(old(cases)@)) {
            Ok(a) => r is Ok && cases_view(final(cases)@) == a,
            Err(e) => r matches Err(x) && err_view(x) == e,
        },
    decreases node, 8int,
{
    let n = node.inner.len();
    if str_eq(node.kind.as_str(), "CaseStmt") {
        if n == 0 {
            return Ok(());
        }
        let value = match convert_expr(&node.inner[0]) {
            Ok(x) => x,
            Err(e) => {
                return Err(e);
            },
        };
        assert(node.inner@.subrange(1, n as int) =~= node.inner@.drop_first());
        let body = match convert_stmt_range(&node.inner, 1, n) {
            Ok(x) => x,
            Err(e) => {
                return Err(e);
            },
        };
        let ghost v = value;
        let c = SwitchCase { value: Some(value), body };
        proof {
            lemma_cases_view_push(cases@, c);
            assert(opt_expr_view(Some(v)) == Some(expr_view(v)));
        }
        cases.push(c);
        Ok(())
    } else if str_eq(node.kind.as_str(), "DefaultStmt") {
        assert(node.inner@.subrange(0, n as int) =~= node.inner@);
        let body = match convert_stmt_range(&node.inner, 0, n) {
            Ok(x) => x,
            Err(e) => {
                return Err(e);
            },
        };
        let c = SwitchCase { value: None, body };
        proof {
            lemma_cases_view_push(cases@, c);
            assert(opt_expr_view(None) == None::<ExprView>);
        }
        cases.push(c);
        Ok(())
    } else {
        let stmt = match convert_stmt(node) {
            Ok(x) => x,
            Err(e) => {
                return Err(e);
            },
        };
        let ghost old_cases = cases@;
        match cases.pop() {
            Some(last) => {
                let ghost before = cases@;
                let ghost last0 = last;
                proof {
                    lemma_cases_view_push(before, last0);
                    assert(old_cases == before.push(last0));
                }
                let ghost acc = cases_view(old_cases);
                let mut body = last.body;
                let ghost st = stmt;
                proof {
                    lemma_stmts_view_push(body@, st);
                }
                body.push(stmt);
                let c = SwitchCase { value: last.value, body };
                proof {
                    lemma_cases_view_push(before, c);
                    assert(acc.last() == CaseView { value: opt_expr_view(last0.value), body: stmts_view(last0.body@) });
                    assert(cases_view(before.push(c)) =~= acc.update(
                        acc.len() - 1,
                        CaseView { value: acc.last().value, body: acc.last().body.push(stmt_view(st)) },
                    ));
                }
                cases.push(c);
                Ok(())
            },
            None => Ok(()),
        }
    }
}

/// The arms of a `switch` whose body's nodes are `s` (see `cases_of`).
fn convert_cases(s: &Vec<Node>, cases: &mut Vec<SwitchCase>) -> (r: Result<(), ConvertError>)
    ensures
        match cases_of(s@, cases_view(old(cases)@)) {
            Ok(a) => r is Ok && cases_view(final(cases)@) == a,
            Err(e) => r matches Err(x) && err_view(x) == e,
        },
    decreases s@, 1int,
{
    let mut i: usize = 0;
    assert(s@.skip(0) =~= s@);
    while i < s.len()
        invariant
            i <= s@.len(),
            cases_of(s@, cases_view(old(cases)@)) == cases_of(s@.skip(i as int), cases_view(cases@)),
        decreases s@.len() - i,
    {
        assert(s@.skip(i as int).drop_first() =~= s@.skip(i + 1));
        assert(s@.skip(i as int)[0] == s@[i as int]);
        match case_step_into(&s[i], cases) {
            Ok(()) => {},
            Err(e) => {
                return Err(e);
            },
        }
        i = i + 1;
    }
    assert(s@.skip(i as int) =~= Seq::<Node>::empty());
    Ok(())
}

/// A `SwitchStmt` (see `switch_of`).
fn convert_switch(node: &Node) -> (r: Result<Stmt, ConvertError>)
    ensures
        res_stmt(r) == switch_of(*node),
    decreases node, 6int,
{
    if node.inner.len() < 2 {
        return Err(ConvertError::TooFewChildren("SwitchStmt".to_owned(), 2));
    }
    let cond = match convert_expr(&node.inner[0]) {
        Ok(x) => x,
        Err(e) => {
            return Err(e);
        },
    };
    let body = &node.inner[1];
    let mut cases: Vec<SwitchCase> = Vec::new();
    assert(cases_view(cases@) =~= Seq::empty());
    let res = if str_eq(body.kind.as_str(), "CompoundStmt") {
        convert_cases(&body.inner, &mut cases)
    } else {
        case_step_into(body, &mut cases)
    };
    match res {
        Ok(()) => Ok(Stmt::Switch(cond, cases)),
        Err(e) => Err(e),
    }
}

/// A `DeclStmt` (see `decl_of`).
fn convert_decl(node: &Node) -> (r: Result<Stmt, ConvertError>)
    ensures
        res_stmt(r) == decl_of(*node),
    decreases node, 6int,
{
    proof {
        lemma_first_of_kind(node.inner@, "VarDecl"@);
    }
    match node.first_child_of_kind("VarDecl") {
        Some(var_decl) => {
            let name = match &var_decl.name {
                Some(x) => x.clone(),
                None => "?".to_owned(),
            };
            let ty = node_ctype_or(var_decl, CType::CInt(IntWidth::W32));
            assert(opt_expr_view(None) == None::<ExprView>);
            if var_decl.inner.len() == 0 {
                return Ok(Stmt::Declare(name, ty, None));
            }
            proof {
                lemma_last_init(var_decl.inner@);
            }
            match last_init_index(&var_decl.inner) {
                Some(j) => match convert_expr(&var_decl.inner[j]) {
                    Ok(v) => {
                        assert(opt_expr_view(Some(v)) == Some(expr_view(v)));
                        Ok(Stmt::Declare(name, ty, Some(v)))
                    },
                    Err(e) => Err(e),
                },
                None => Ok(Stmt::Declare(name, ty, None)),
            }
        },
        None => Err(ConvertError::DeclWithoutVar),
    }
}

/// A `ReturnStmt` (see `return_of`).
fn convert_return(node: &Node) -> (r: Result<Stmt, ConvertError>)
    ensures
        res_stmt(r) == return_of(*node),
    decreases node, 6int,
{
    if node.inner.len() == 0 {
        assert(opt_expr_view(None) == None::<ExprView>);
        Ok(Stmt::Return(None))
    } else {
        match convert_expr(&node.inner[0]) {
            Ok(v) => {
                assert(opt_expr_view(Some(v)) == Some(expr_view(v)));
                Ok(Stmt::Return(Some(v)))
            },
            Err(e) => Err(e),
        }
    }
}

/// An `IfStmt` (see `if_of`).
fn convert_if(node: &Node) -> (r: Result<Stmt, ConvertError>)
    ensures
        res_stmt(r) == if_of(*node),
    decreases node, 6int,
{
    let n = node.inner.len();
    if n < 2 {
        return Err(ConvertError::TooFewChildren("IfStmt".to_owned(), 2));
    }
    let cond = match convert_expr(&node.inner[0]) {
        Ok(x) => x,
        Err(e) => {
            return Err(e);
        },
    };
    let then_branch = match convert_stmt(&node.inner[1]) {
        Ok(x) => x,
        Err(e) => {
            return Err(e);
        },
    };
    let else_branch = if n > 2 {
        match convert_stmt(&node.inner[2]) {
            Ok(x) => x,
            Err(e) => {
                return Err(e);
            },
        }
    } else {
        let empty: Vec<Stmt> = Vec::new();
        assert(stmts_view(empty@) =~= Seq::empty());
        Stmt::Compound(empty)
    };
    Ok(Stmt::If(cond, into_branch(then_branch), into_branch(else_branch)))
}

/// A `LabelStmt` (see `label_of`).
fn convert_label(node: &Node) -> (r: Result<Stmt, ConvertError>)
    ensures
        res_stmt(r) == label_of(*node),
    decreases node, 6int,
{
    let label = match &node.name {
        Some(x) => x.clone(),
        None => "?".to_owned(),
    };
    let body = if node.inner.len() > 0 {
        match convert_stmt(&node.inner[0]) {
            Ok(x) => x,
            Err(e) => {
                return Err(e);
            },
        }
    } else {
        let empty: Vec<Stmt> = Vec::new();
        assert(stmts_view(empty@) =~= Seq::empty());
        Stmt::Compound(empty)
    };
    let ghost b = body;
    let st = Stmt::Label(label, Box::new(body));
    assert(stmt_view(st) == StmtView::Label(label@, Box::new(stmt_view(b))));
    Ok(st)
}

/// A node whose children form a compound statement (see `compound_of`).
fn convert_compound(node: &Node) -> (r: Result<Stmt, ConvertError>)
    ensures
        res_stmt(r) == compound_of(*node),
    decreases node, 6int,
{
    match convert_compound_stmt(node) {
        Ok(ss) => Ok(Stmt::Compound(ss)),
        Err(e) => Err(e),
    }
}

/// Any other statement node (see `other_stmt_of`).
fn convert_other_stmt(node: &Node) -> (r: Result<Stmt, ConvertError>)
    ensures
        res_stmt(r) == other_stmt_of(*node),
    decreases node, 6int,
{
    let k = node.kind.as_str();
    let is_assign = str_eq(k, "BinaryOperator") && match &node.opcode {
        Some(o) => str_eq(o.as_str(), "="),
        None => false,
    };
    if is_assign {
        match try_convert_assignment(node) {
            Ok(Some(st)) => {
                return Ok(st);
            },
            Ok(None) => {},
            Err(e) => {
                return Err(e);
            },
        }
    }
    if str_eq(k, "CompoundAssignOperator") {
        match try_convert_compound_assignment(node) {
            Ok(Some(st)) => {
                return Ok(st);
            },
            Ok(None) => {},
            Err(e) => {
                return Err(e);
            },
        }
    }
    if str_eq(k, "UnaryOperator") {
        if let Some(o) = &node.opcode {
            let inc = str_eq(o.as_str(), "++");
            if inc || str_eq(o.as_str(), "--") {
                match try_convert_inc_dec_stmt(node, inc) {
                    Ok(Some(st)) => {
                        return Ok(st);
                    },
                    Ok(None) => {},
                    Err(e) => {
                        return Err(e);
                    },
                }
            }
        }
    }
    match convert_expr(node) {
        Ok(v) => Ok(Stmt::ExprStmt(v)),
        Err(e) => Err(e),
    }
}

/// Convert a statement node (see `stmt_of`).
fn convert_stmt(node: &Node) -> (r: Result<Stmt, ConvertError>)
    ensures
        res_stmt(r) == stmt_of(*node),
    decreases node, 7int,
{
    let k = node.kind.as_str();
    if str_eq(k, "DeclStmt") {
        convert_decl(node)
    } else if str_eq(k, "ReturnStmt") {
        convert_return(node)
    } else if str_eq(k, "IfStmt") {
        convert_if(node)
    } else if str_eq(k, "CompoundStmt") {
        convert_compound(node)
    } else if str_eq(k, "GotoStmt") {
        let label = match &node.name {
            Some(x) => x.clone(),
            None => "?".to_owned(),
        };
        Ok(Stmt::Goto(label))
    } else if str_eq(k, "LabelStmt") {
        convert_label(node)
    } else if str_eq(k, "SwitchStmt") {
        convert_switch(node)
    } else if str_eq(k, "BreakStmt") {
        Ok(Stmt::Break)
    } else if str_eq(k, "DefaultStmt") {
        convert_compound(node)
    } else {
        convert_other_stmt(node)
    }
}

// ---------------------------------------------------------------------
// Translation units

/// A map definition with its texts as character sequences.
pub struct MapView {
    pub name: Seq<char>,
    pub map_type: Seq<char>,
    pub key_type: CTypeView,
    pub value_type: CTypeView,
    pub max_entries: usize,
}

/// A programme with its texts as character sequences.
pub struct ProgView {
    pub name: Seq<char>,
    pub section: Seq<char>,
    pub param_name: Seq<char>,
    pub param_type: CTypeView,
    pub return_type: CTypeView,
    pub body: Seq<StmtView>,
}

/// A converted translation unit with its texts as character sequences.
pub struct ObjectView {
    pub source_file: Seq<char>,
    pub maps: Seq<MapView>,
    pub progs: Seq<ProgView>,
}

pub open spec fn map_view(m: MapDef) -> MapView {
    MapView {
        name: m.name@,
        map_type: m.map_type@,
        key_type: ctype_view(m.key_type),
        value_type: ctype_view(m.value_type),
        max_entries: m.max_entries,
    }
}

pub open spec fn prog_view(p: BpfProg) -> ProgView {
    ProgView {
        name: p.name@,
        section: p.section@,
        param_name: p.param_name@,
        param_type: ctype_view(p.param_type),
        return_type: ctype_view(p.return_type),
        body: stmts_view(p.body@),
    }
}

pub open spec fn object_view(o: BpfObject) -> ObjectView {
    ObjectView {
        source_file: o.source_file@,
        maps: o.maps@.map_values(|m: MapDef| map_view(m)),
        progs: o.progs@.map_values(|p: BpfProg| prog_view(p)),
    }
}

/// The map a `.maps` variable declares: every one is taken for a hash map
/// from 32-bit keys to 64-bit values with 1024 entries.
pub open spec fn map_of(name: Seq<char>) -> MapView {
    MapView {
        name,
        map_type: "BPF_MAP_TYPE_HASH"@,
        key_type: CTypeView::CUInt(IntWidth::W32),
        value_type: CTypeView::CUInt(IntWidth::W64),
        max_entries: 1024,
    }
}

/// Whether some child is a `SectionAttr` naming `.maps`.
pub open spec fn in_maps_section(n: Node) -> bool {
    exists|i: int|
        0 <= i < n.inner@.len() && (#[trigger] n.inner@[i]).kind@ == "SectionAttr"@ && n.inner@[i].section_name
            is Some && n.inner@[i].section_name->0@ == ".maps"@
}

/// The section a function's first `SectionAttr` child names.
pub open spec fn section_of(n: Node) -> Option<Seq<char>> {
    match first_of_kind(n.inner@, "SectionAttr"@) {
        Some(i) => opt_chars(n.inner@[i].section_name),
        None => None,
    }
}

/// Whether a section makes a function a programme.
pub open spec fn prog_section(s: Option<Seq<char>>) -> bool {
    s is Some && s->0 != "license"@ && s->0 != ".maps"@
}

/// Whether a node is one the compiler made up.
pub open spec fn implicit(n: Node) -> bool {
    n.is_implicit == Some(true)
}

/// The current file after a node: its location's file, or its expansion
/// location's, or unchanged.
pub open spec fn next_file(n: Node, cur: Seq<char>) -> Seq<char> {
    match n.loc {
        Some(loc) => match loc.file {
            Some(f) => f@,
            None => match loc.expansion_loc {
                Some(e) => match e.file {
                    Some(f) => f@,
                    None => cur,
                },
                None => cur,
            },
        },
        None => cur,
    }
}

/// The current file after the first `k` top-level nodes (implicit ones
/// leave it unchanged).
pub open spec fn file_after(s: Seq<Node>, k: int) -> Seq<char>
    decreases k,
{
    if k <= 0 || k > s.len() {
        Seq::empty()
    } else if implicit(s[k - 1]) {
        file_after(s, k - 1)
    } else {
        next_file(s[k - 1], file_after(s, k - 1))
    }
}

/// Whether top-level node `k` is the user's: not implicit, and the
/// current file after it is empty or holds the source file's name.
pub open spec fn user_node(s: Seq<Node>, k: int, src: Seq<char>) -> bool {
    !implicit(s[k]) && (contains(file_after(s, k + 1), src) || file_after(s, k + 1).len() == 0)
}

/// The user's function declarations among the first `k` nodes.
pub open spec fn funcs_upto(s: Seq<Node>, k: int, src: Seq<char>) -> Seq<Node>
    decreases k,
{
    if k <= 0 || k > s.len() {
        Seq::empty()
    } else if user_node(s, k - 1, src) && s[k - 1].kind@ == "FunctionDecl"@ {
        funcs_upto(s, k - 1, src).push(s[k - 1])
    } else {
        funcs_upto(s, k - 1, src)
    }
}

/// The user's maps among the first `k` nodes: named variables in `.maps`.
pub open spec fn maps_upto(s: Seq<Node>, k: int, src: Seq<char>) -> Seq<MapView>
    decreases k,
{
    if k <= 0 || k > s.len() {
        Seq::empty()
    } else if user_node(s, k - 1, src) && s[k - 1].kind@ != "FunctionDecl"@ && s[k - 1].kind@ == "VarDecl"@
        && s[k - 1].name is Some && in_maps_section(s[k - 1]) {
        maps_upto(s, k - 1, src).push(map_of(s[k - 1].name->0@))
    } else {
        maps_upto(s, k - 1, src)
    }
}

/// The last function of `funcs` named `target` that has a body.
pub open spec fn inner_index(funcs: Seq<Node>, target: Seq<char>) -> Option<int>
    decreases funcs.len(),
{
    if funcs.len() == 0 {
        None
    } else if funcs.last().name is Some && funcs.last().name->0@ == target && first_of_kind(
        funcs.last().inner@,
        "CompoundStmt"@,
    ) is Some {
        Some(funcs.len() - 1)
    } else {
        inner_index(funcs.drop_last(), target)
    }
}

/// `t` up to its first `(`.
pub open spec fn before_paren(t: Seq<char>) -> Seq<char> {
    match find(t, seq!['(']) {
        Some(p) => t.take(p),
        None => t,
    }
}

/// A parameter's name and type, `ctx` and `void *` where it lacks them.
pub open spec fn param_of(p: Option<Node>) -> (Seq<char>, CTypeView) {
    let dflt = CTypeView::CPtr(Box::new(CTypeView::CVoid));
    match p {
        Some(q) => (
            match q.name {
                Some(x) => x@,
                None => "ctx"@,
            },
            ctype_or(qual_type_of(q), dflt),
        ),
        None => ("ctx"@, dflt),
    }
}

/// The programme a function with a programme section converts to, with
/// its body and parameters taken from `body` (the function itself, or
/// the inner function a `BPF_PROG` expansion made, whose first parameter
/// is the raw context and so is skipped).
pub open spec fn prog_of(sec: Node, body: Node, same: bool) -> Result<ProgView, ErrView> {
    let name = match sec.name {
        Some(x) => x@,
        None => "?"@,
    };
    let return_type = match qual_type_of(sec) {
        Some(t) => ctype_of(trim(before_paren(t))),
        None => CTypeView::CInt(IntWidth::W32),
    };
    let params = of_kind(body.inner@, "ParmVarDecl"@);
    let p = if same {
        if params.len() > 0 { Some(params[0]) } else { None }
    } else {
        if params.len() >= 2 { Some(params[1]) } else { None }
    };
    let stmts = match first_of_kind(body.inner@, "CompoundStmt"@) {
        Some(i) => stmts_of(body.inner@[i].inner@),
        None => Ok(Seq::empty()),
    };
    match stmts {
        Err(e) => Err(e),
        Ok(b) => Ok(
            ProgView {
                name,
                section: section_of(sec)->0,
                param_name: param_of(p).0,
                param_type: param_of(p).1,
                return_type,
                body: b,
            },
        ),
    }
}

/// The sections seen and the programmes made after the first `k` user
/// functions: a function with a name not starting `____` and a programme
/// section not seen before becomes a programme, its body taken from the
/// `____`-prefixed function of the same name where there is one.
pub open spec fn progs_upto(funcs: Seq<Node>, k: int) -> Result<(Seq<Seq<char>>, Seq<ProgView>), ErrView>
    decreases k,
{
    if k <= 0 || k > funcs.len() {
        Ok((Seq::empty(), Seq::empty()))
    } else {
        match progs_upto(funcs, k - 1) {
            Err(e) => Err(e),
            Ok((seen, acc)) => {
                let f = funcs[k - 1];
                match f.name {
                    None => Ok((seen, acc)),
                    Some(nm) => if has_prefix(nm@, "____"@) || !prog_section(section_of(f)) || seen.contains(
                        section_of(f)->0,
                    ) {
                        Ok((seen, acc))
                    } else {
                        let inner = inner_index(funcs, "____"@ + nm@);
                        let body = match inner {
                            Some(i) => funcs[i],
                            None => f,
                        };
                        match prog_of(f, body, inner is None) {
                            Err(e) => Err(ErrView::InFunction(nm@, Box::new(e))),
                            Ok(p) => Ok((seen.push(section_of(f)->0), acc.push(p))),
                        }
                    },
                }
            },
        }
    }
}

/// The object a translation unit converts to: its user maps and
/// programmes (see `maps_upto` and `progs_upto`).
pub open spec fn object_of(root: Node, src: Seq<char>) -> Result<ObjectView, ErrView> {
    if root.kind@ != "TranslationUnitDecl"@ {
        Err(ErrView::NotTranslationUnit(root.kind@))
    } else {
        let s = root.inner@;
        let funcs = funcs_upto(s, s.len() as int, src);
        match progs_upto(funcs, funcs.len() as int) {
            Err(e) => Err(e),
            Ok((_, progs)) => Ok(ObjectView { source_file: src, maps: maps_upto(s, s.len() as int, src), progs }),
        }
    }
}

/// A `.maps` variable's map (see `map_of`); other variables declare none.
/// Never fails.
fn convert_map_def(node: &Node) -> (r: Result<Option<MapDef>, ConvertError>)
    ensures
        r matches Ok(o) && (if in_maps_section(*node) {
            o matches Some(m) && map_view(m) == map_of(
                match node.name {
                    Some(x) => x@,
                    None => "?"@,
                },
            )
        } else {
            o is None
        }),
{
    let name = match &node.name {
        Some(x) => x.clone(),
        None => "?".to_owned(),
    };
    let mut is_map_section = false;
    let mut i: usize = 0;
    while i < node.inner.len()
        invariant
            i <= node.inner@.len(),
            is_map_section ==> in_maps_section(*node),
            !is_map_section ==> forall|j: int|
                0 <= j < i ==> !((#[trigger] node.inner@[j]).kind@ == "SectionAttr"@ && node.inner@[j].section_name
                    is Some && node.inner@[j].section_name->0@ == ".maps"@),
        decreases node.inner@.len() - i,
    {
        let n = &node.inner[i];
        if str_eq(n.kind.as_str(), "SectionAttr") {
            if let Some(sn) = &n.section_name {
                if str_eq(sn.as_str(), ".maps") {
                    is_map_section = true;
                }
            }
        }
        i = i + 1;
    }
    if !is_map_section {
        return Ok(None);
    }
    Ok(
        Some(
            MapDef {
                name,
                map_type: "BPF_MAP_TYPE_HASH".to_owned(),
                key_type: CType::CUInt(IntWidth::W32),
                value_type: CType::CUInt(IntWidth::W64),
                max_entries: 1024,
            },
        ),
    )
}

/// A parameter's name and type (see `param_of`).
fn param_parts(p: Option<&Node>) -> (r: (String, CType))
    ensures
        r.0@ == param_of(
            match p {
                Some(q) => Some(*q),
                None => None,
            },
        ).0,
        ctype_view(r.1) == param_of(
            match p {
                Some(q) => Some(*q),
                None => None,
            },
        ).1,
{
    let v = CType::CVoid;
    assert(ctype_view(v) == CTypeView::CVoid);
    let d = CType::CPtr(Box::new(v));
    assert(ctype_view(d) == CTypeView::CPtr(Box::new(CTypeView::CVoid)));
    match p {
        Some(q) => {
            let pn = match &q.name {
                Some(x) => x.clone(),
                None => "ctx".to_owned(),
            };
            (pn, node_ctype_or(q, d))
        },
        None => ("ctx".to_owned(), d),
    }
}

/// The programme a function converts to (see `prog_of`), or none where
/// its section is not a programme's.
fn convert_function_with_body(sec_node: &Node, body_node: &Node, same: bool) -> (r: Result<
    Option<BpfProg>,
    ConvertError,
>)
    ensures
        if prog_section(section_of(*sec_node)) {
            match prog_of(*sec_node, *body_node, same) {
                Ok(p) => r matches Ok(Some(x)) && prog_view(x) == p,
                Err(e) => r matches Err(x) && err_view(x) == e,
            }
        } else {
            r matches Ok(None)
        },
{
    proof {
        lemma_first_of_kind(sec_node.inner@, "SectionAttr"@);
        lemma_first_of_kind(body_node.inner@, "CompoundStmt"@);
    }
    let name = match &sec_node.name {
        Some(x) => x.clone(),
        None => "?".to_owned(),
    };
    let section = match sec_node.first_child_of_kind("SectionAttr") {
        Some(a) => match &a.section_name {
            Some(x) => x,
            None => {
                return Ok(None);
            },
        },
        None => {
            return Ok(None);
        },
    };
    if str_eq(section.as_str(), "license") || str_eq(section.as_str(), ".maps") {
        return Ok(None);
    }
    let return_type = match sec_node.qual_type() {
        Some(t) => {
            let tv = chars_of(t);
            let paren = vec!['('];
            assert(paren@ =~= seq!['(']);
            let head = match find_in(tv.as_slice(), paren.as_slice()) {
                Some(p) => {
                    proof {
                        lemma_find_from_bounds(tv@, seq!['('], 0);
                    }
                    let h = slice_of(tv.as_slice(), 0, p);
                    assert(h@ =~= tv@.take(p as int));
                    h
                },
                None => tv,
            };
            assert(paren@ =~= seq!['(']);
            ctype_from(trim_of(head.as_slice()).as_slice())
        },
        None => CType::CInt(IntWidth::W32),
    };
    let params = body_node.children_of_kind("ParmVarDecl");
    let p: Option<&Node> = if same {
        if params.len() > 0 {
            Some(params[0])
        } else {
            None
        }
    } else {
        if params.len() >= 2 {
            Some(params[1])
        } else {
            None
        }
    };
    let (param_name, param_type) = param_parts(p);
    let body = match body_node.first_child_of_kind("CompoundStmt") {
        Some(compound) => match convert_compound_stmt(compound) {
            Ok(x) => x,
            Err(e) => {
                return Err(e);
            },
        },
        None => {
            let empty: Vec<Stmt> = Vec::new();
            assert(stmts_view(empty@) =~= Seq::empty());
            empty
        },
    };
    Ok(Some(BpfProg { name, section: section.clone(), param_name, param_type, return_type, body }))
}

/// The last function of `funcs` named `target` with a body (see
/// `inner_index`).
fn find_inner(funcs: &Vec<&Node>, target: &[char]) -> (r: Option<usize>)
    ensures
        r matches Some(i) ==> i < funcs@.len() && inner_index(funcs@.map_values(|f: &Node| *f), target@) == Some(
            i as int,
        ),
        r is None ==> inner_index(funcs@.map_values(|f: &Node| *f), target@) is None,
{
    let ghost fs = funcs@.map_values(|f: &Node| *f);
    let mut k: usize = funcs.len();
    assert(fs.take(k as int) =~= fs);
    while k > 0
        invariant
            k <= funcs@.len(),
            fs == funcs@.map_values(|f: &Node| *f),
            inner_index(fs, target@) == inner_index(fs.take(k as int), target@),
        decreases k,
    {
        assert(fs.take(k as int).drop_last() =~= fs.take(k - 1));
        assert(fs.take(k as int).last() == *funcs@[k - 1]);
        let f = funcs[k - 1];
        proof {
            lemma_first_of_kind(f.inner@, "CompoundStmt"@);
        }
        let named = match &f.name {
            Some(n) => crate::verify::scan::eq_chars(chars_of(n.as_str()).as_slice(), target),
            None => false,
        };
        if named && f.first_child_of_kind("CompoundStmt").is_some() {
            return Some(k - 1);
        }
        k = k - 1;
    }
    None
}

/// Once converting the functions fails, it stays failed.
pub proof fn lemma_progs_err(fs: Seq<Node>, a: int, b: int)
    requires
        0 < a <= b <= fs.len(),
        progs_upto(fs, a) is Err,
    ensures
        progs_upto(fs, b) == progs_upto(fs, a),
    decreases b - a,
{
    if b > a {
        lemma_progs_err(fs, a, b - 1);
    }
}

/// Whether `seen` holds `s`.
fn seen_has(seen: &Vec<Vec<char>>, s: &[char]) -> (b: bool)
    ensures
        b == seen@.map_values(|v: Vec<char>| v@).contains(s@),
{
    let ghost sv = seen@.map_values(|v: Vec<char>| v@);
    let mut i: usize = 0;
    while i < seen.len()
        invariant
            i <= seen@.len(),
            sv == seen@.map_values(|v: Vec<char>| v@),
            forall|j: int| 0 <= j < i ==> sv[j] != s@,
        decreases seen@.len() - i,
    {
        if crate::verify::scan::eq_chars(seen[i].as_slice(), s) {
            assert(sv[i as int] == s@);
            return true;
        }
        i = i + 1;
    }
    false
}

/// Convert a Clang translation unit into a `BpfObject` (see `object_of`).
///
/// Declarations count as the user's while the file last named by a
/// top-level node holds `source_file`, as Clang only names a file where
/// it changes. A `BPF_PROG` expansion leaves a sectioned trampoline and a
/// `____`-prefixed function with the real body; the programme takes the
/// trampoline's name and section and the inner function's body.
pub fn convert_translation_unit(root: &Node, source_file: &str) -> (r: Result<BpfObject, ConvertError>)
    ensures
        match object_of(*root, source_file@) {
            Ok(o) => r matches Ok(x) && object_view(x) == o,
            Err(e) => r matches Err(x) && err_view(x) == e,
        },
{
    proof {
        reveal_strlit("TranslationUnitDecl");
    }
    if !str_eq(root.kind.as_str(), "TranslationUnitDecl") {
        return Err(ConvertError::NotTranslationUnit(root.kind.clone()));
    }
    let ghost s = root.inner@;
    let src = chars_of(source_file);
    let mut maps: Vec<MapDef> = Vec::new();
    let mut funcs: Vec<&Node> = Vec::new();
    let mut current_file: Vec<char> = Vec::new();
    let mut i: usize = 0;
    while i < root.inner.len()
        invariant
            s == root.inner@,
            src@ == source_file@,
            i <= s.len(),
            current_file@ == file_after(s, i as int),
            funcs@.map_values(|f: &Node| *f) == funcs_upto(s, i as int, src@),
            maps@.map_values(|m: MapDef| map_view(m)) == maps_upto(s, i as int, src@),
        decreases s.len() - i,
    {
        let node = &root.inner[i];
        let ghost fu = funcs@.map_values(|f: &Node| *f);
        let ghost mu = maps@.map_values(|m: MapDef| map_view(m));
        let implicit_node = match node.is_implicit {
            Some(b) => b,
            None => false,
        };
        if !implicit_node {
            if let Some(loc) = &node.loc {
                if let Some(file) = &loc.file {
                    current_file = chars_of(file.as_str());
                } else if let Some(exp) = &loc.expansion_loc {
                    if let Some(file) = &exp.file {
                        current_file = chars_of(file.as_str());
                    }
                }
            }
            assert(current_file@ == file_after(s, i + 1));
            let is_user = contains_in(current_file.as_slice(), src.as_slice()) || current_file.len() == 0;
            if is_user {
                if str_eq(node.kind.as_str(), "FunctionDecl") {
                    funcs.push(node);
                    assert(funcs@.map_values(|f: &Node| *f) =~= fu.push(*node));
                } else if str_eq(node.kind.as_str(), "VarDecl") {
                    if let Some(name) = &node.name {
                        match convert_map_def(node) {
                            Ok(Some(m)) => {
                                maps.push(m);
                                assert(maps@.map_values(|m: MapDef| map_view(m)) =~= mu.push(map_view(m)));
                            },
                            Ok(None) => {},
                            Err(e) => {
                                return Err(ConvertError::InVariable(name.clone(), Box::new(e)));
                            },
                        }
                    }
                }
            }
        } else {
            assert(current_file@ == file_after(s, i + 1));
        }
        i = i + 1;
    }
    let ghost fs = funcs@.map_values(|f: &Node| *f);
    let mut progs: Vec<BpfProg> = Vec::new();
    let mut seen: Vec<Vec<char>> = Vec::new();
    let mut k: usize = 0;
    assert(seen@.map_values(|v: Vec<char>| v@) =~= Seq::empty());
    assert(progs@.map_values(|p: BpfProg| prog_view(p)) =~= Seq::empty());
    while k < funcs.len()
        invariant
            fs == funcs@.map_values(|f: &Node| *f),
            fs == funcs_upto(s, s.len() as int, src@),
            s == root.inner@,
            root.kind@ == "TranslationUnitDecl"@,
            src@ == source_file@,
            maps@.map_values(|m: MapDef| map_view(m)) == maps_upto(s, s.len() as int, src@),
            k <= funcs@.len(),
            progs_upto(fs, k as int) == Ok::<(Seq<Seq<char>>, Seq<ProgView>), ErrView>(
                (seen@.map_values(|v: Vec<char>| v@), progs@.map_values(|p: BpfProg| prog_view(p))),
            ),
        decreases funcs@.len() - k,
    {
        let f = funcs[k];
        assert(fs[k as int] == *f);
        let ghost sv = seen@.map_values(|v: Vec<char>| v@);
        let ghost pv = progs@.map_values(|p: BpfProg| prog_view(p));
        proof {
            lemma_first_of_kind(f.inner@, "SectionAttr"@);
            reveal_strlit("____");
        }
        let name = match &f.name {
            Some(n) => n,
            None => {
                k = k + 1;
                continue;
            },
        };
        let nv = chars_of(name.as_str());
        let prefix = chars_of("____");
        if starts_with(nv.as_slice(), prefix.as_slice()) {
            k = k + 1;
            continue;
        }
        let section = match f.first_child_of_kind("SectionAttr") {
            Some(a) => match &a.section_name {
                Some(x) => x,
                None => {
                    k = k + 1;
                    continue;
                },
            },
            None => {
                k = k + 1;
                continue;
            },
        };
        if str_eq(section.as_str(), "license") || str_eq(section.as_str(), ".maps") {
            k = k + 1;
            continue;
        }
        let sec = chars_of(section.as_str());
        if seen_has(&seen, sec.as_slice()) {
            k = k + 1;
            continue;
        }
        seen.push(sec);
        assert(seen@.map_values(|v: Vec<char>| v@) =~= sv.push(section@));
        let mut target = prefix;
        crate::verify::scan::append(&mut target, nv.as_slice());
        let res = match find_inner(&funcs, target.as_slice()) {
            Some(j) => convert_function_with_body(f, funcs[j], false),
            None => convert_function_with_body(f, f, true),
        };
        match res {
            Ok(Some(p)) => {
                progs.push(p);
                assert(progs@.map_values(|p: BpfProg| prog_view(p)) =~= pv.push(prog_view(p)));
            },
            Ok(None) => {},
            Err(e) => {
                proof {
                    assert(target@ == "____"@ + name@);
                    assert(progs_upto(fs, k + 1) == Err::<(Seq<Seq<char>>, Seq<ProgView>), ErrView>(
                        ErrView::InFunction(name@, Box::new(err_view(e))),
                    ));
                    lemma_progs_err(fs, k + 1, fs.len() as int);
                }
                return Err(ConvertError::InFunction(name.clone(), Box::new(e)));
            },
        }
        k = k + 1;
    }
    Ok(BpfObject { source_file: source_file.to_owned(), maps, progs })
}

/// The text of a conversion error: the innermost cause last, each
/// context before it as `converting function 'f': ...`.
pub open spec fn err_text(e: ErrView) -> Seq<char>
    decreases e,
{
    match e {
        ErrView::NotTranslationUnit(k) => "Expected TranslationUnitDecl, got "@ + k,
        ErrView::DeclWithoutVar => "DeclStmt without VarDecl"@,
        ErrView::TooFewChildren(k, n) => k + " with fewer than "@ + dec_nat(n as nat) + " children"@,
        ErrView::NoChildren(k) => k + " with no children"@,
        ErrView::MissingOpcode(k) => k + " without opcode"@,
        ErrView::MissingLiteralValue => "IntegerLiteral without value"@,
        ErrView::BadIntegerLiteral(v) => "parsing integer literal '"@ + v + "'"@,
        ErrView::MissingReferencedDecl => "DeclRefExpr without referenced decl"@,
        ErrView::UnknownUnaryOp(o) => "unrecognised unary operator: '"@ + o + "'"@,
        ErrView::UnknownBinaryOp(o) => "unrecognised binary operator: '"@ + o + "'"@,
        ErrView::UnknownExprKind(k, t) => "unrecognised expression kind: '"@ + k + "' (type: "@ + match t {
            Some(x) => "Some(\""@ + x + "\")"@,
            None => "None"@,
        } + ")"@,
        ErrView::InVariable(n, b) => "converting variable '"@ + n + "': "@ + err_text(*b),
        ErrView::InFunction(n, b) => "converting function '"@ + n + "': "@ + err_text(*b),
    }
}

impl ConvertError {
    /// Append the error's text (see `err_text`) to `out`.
    pub fn push_message(&self, out: &mut String)
        ensures
            final(out)@ == old(out)@ + err_text(err_view(*self)),
        decreases self,
    {
        let ghost start = out@;
        match self {
            ConvertError::NotTranslationUnit(k) => {
                push_str(out, "Expected TranslationUnitDecl, got ");
                push_str(out, k.as_str());
            },
            ConvertError::DeclWithoutVar => push_str(out, "DeclStmt without VarDecl"),
            ConvertError::TooFewChildren(k, n) => {
                push_str(out, k.as_str());
                push_str(out, " with fewer than ");
                push_dec_u64(out, *n as u64);
                push_str(out, " children");
            },
            ConvertError::NoChildren(k) => {
                push_str(out, k.as_str());
                push_str(out, " with no children");
            },
            ConvertError::MissingOpcode(k) => {
                push_str(out, k.as_str());
                push_str(out, " without opcode");
            },
            ConvertError::MissingLiteralValue => push_str(out, "IntegerLiteral without value"),
            ConvertError::BadIntegerLiteral(v) => {
                push_str(out, "parsing integer literal '");
                push_str(out, v.as_str());
                push_str(out, "'");
            },
            ConvertError::MissingReferencedDecl => push_str(out, "DeclRefExpr without referenced decl"),
            ConvertError::UnknownUnaryOp(o) => {
                push_str(out, "unrecognised unary operator: '");
                push_str(out, o.as_str());
                push_str(out, "'");
            },
            ConvertError::UnknownBinaryOp(o) => {
                push_str(out, "unrecognised binary operator: '");
                push_str(out, o.as_str());
                push_str(out, "'");
            },
            ConvertError::UnknownExprKind(k, t) => {
                push_str(out, "unrecognised expression kind: '");
                push_str(out, k.as_str());
                push_str(out, "' (type: ");
                match t {
                    Some(x) => {
                        push_str(out, "Some(\"");
                        push_str(out, x.as_str());
                        push_str(out, "\")");
                    },
                    None => push_str(out, "None"),
                }
                push_str(out, ")");
            },
            ConvertError::InVariable(n, b) => {
                push_str(out, "converting variable '");
                push_str(out, n.as_str());
                push_str(out, "': ");
                (**b).push_message(out);
            },
            ConvertError::InFunction(n, b) => {
                push_str(out, "converting function '");
                push_str(out, n.as_str());
                push_str(out, "': ");
                (**b).push_message(out);
            },
        }
        assert(out@ =~= start + err_text(err_view(*self)));
    }

    /// The error's text (see `err_text`).
    pub fn message(&self) -> (r: String)
        ensures
            r@ == err_text(err_view(*self)),
    {
        let mut s = String::new();
        self.push_message(&mut s);
        assert(s@ =~= err_text(err_view(*self)));
        s
    }
}

} // verus!
