//! The abstract syntax tree: declarations, statements and expressions.
//!
//! Nodes are tagged variants dispatched by pattern matching; the tag
//! enumerations and the tagging traits let callers ask a node for its
//! kind without matching on the node itself.  Nodes are immutable after
//! parsing and shared by reference count.

use vstd::prelude::*;

use std::rc::Rc;

use crate::tokens::Token;

verus! {

/// A shared token.
pub type TokenRef = Rc<Token>;

/// A shared expression.
pub type ExprRef = Rc<Expression>;

/// A shared declaration.
pub type DeclRef = Rc<Decl>;

/// The kind of an expression node.
pub enum ElementType {
    Literal,
    Grouping,
    Unary,
    Binary,
    Assign,
    Logical,
    Call,
}

/// The kind of a statement node.
pub enum StmtType {
    Expression,
    Print,
    Block,
    If,
    While,
    Break,
    Return,
}

/// The kind of a declaration node.
pub enum DeclType {
    Var,
    Stmt,
    Fun,
}

/// An expression node: a tagged variant for each expression form.
pub enum Expr {
    Literal(Literal),
    Grouping(Box<Grouping>),
    Unary(Box<Unary>),
    Binary(Box<Binary>),
    Logical(Box<Logical>),
    Assign(Box<Assign>),
    Call(Box<Call>),
}

/// An expression as stored by parent nodes.
pub struct Expression {
    pub value: Expr,
}

/// A literal: a number, string, boolean, `nil`, or a variable reference
/// (an identifier token).
pub struct Literal {
    pub value: TokenRef,
}

/// A parenthesized expression.
pub struct Grouping {
    pub expr: Expression,
}

/// A prefix operator applied to one operand.
pub struct Unary {
    pub operator: TokenRef,
    pub expr: Expression,
}

/// An infix operator applied to two operands.
pub struct Binary {
    pub left: Expression,
    pub operator: TokenRef,
    pub right: Expression,
}

/// A short-circuit connective (`and`, `or`) applied to two operands.
pub struct Logical {
    pub left: Expression,
    pub operator: TokenRef,
    pub right: Expression,
}

/// An assignment to an already bound name.
pub struct Assign {
    pub identifier: TokenRef,
    pub value: Expression,
}

/// A call of a callee expression on a list of arguments.
pub struct Call {
    pub callee: Expression,
    pub arguments: Vec<Expression>,
}

/// A statement node: a tagged variant for each statement form.
pub enum Stmt {
    Expression(ExprStmt),
    Print(PrintStmt),
    Block(BlockStmt),
    If(Box<IfStmt>),
    While(Box<WhileStmt>),
    Break(BreakStmt),
    Return(ReturnStmt),
}

/// An expression evaluated for its value and effects.
pub struct ExprStmt {
    pub value: ExprRef,
}

/// `print` of one expression.
pub struct PrintStmt {
    pub value: ExprRef,
}

/// A brace-delimited list of declarations run in a fresh child scope.
pub struct BlockStmt {
    pub declarations: Rc<Vec<DeclRef>>,
}

/// `if` with a condition, a then-branch, and an optional else-branch.
pub struct IfStmt {
    pub condition: ExprRef,
    pub then_b: StmtDecl,
    pub else_b: Option<StmtDecl>,
}

/// `while` with a condition and a block body.
pub struct WhileStmt {
    pub condition: ExprRef,
    pub body: BlockStmt,
}

/// `break;`
pub struct BreakStmt {}

/// `return` with an optional result expression.
pub struct ReturnStmt {
    pub value: Option<ExprRef>,
}

/// A declaration node: a variable declaration, a function declaration,
/// or a statement.
pub enum Decl {
    Var(VarDecl),
    Fun(Rc<FunDecl>),
    Stmt(StmtDecl),
}

/// A statement in declaration position.
pub struct StmtDecl {
    pub stmt: Stmt,
}

/// `var` with a name and an optional initializer.
pub struct VarDecl {
    pub identifier: TokenRef,
    pub rhs: Option<ExprRef>,
}

/// `fun` with a name, a parameter list, and a block body.
pub struct FunDecl {
    pub identifier: TokenRef,
    pub params: Vec<TokenRef>,
    pub body: BlockStmt,
}

/// A top-level declaration as produced by the parser.
pub struct Declaration {
    pub decl: DeclRef,
}

impl VarDecl {
    /// A variable declaration without an initializer.
    pub fn new(identifier: TokenRef) -> (r: Self)
        ensures
            r.identifier == identifier,
            r.rhs is None,
    {
        Self { identifier, rhs: None }
    }

    /// A variable declaration with an initializer.
    pub fn new_with_assign(identifier: TokenRef, assign: ExprRef) -> (r: Self)
        ensures
            r.identifier == identifier,
            r.rhs == Some(assign),
    {
        Self { identifier, rhs: Some(assign) }
    }
}

/// Expression nodes report their kind.
pub trait ExprT {
    /// The kind of this node.
    spec fn spec_element_type(&self) -> ElementType;

    /// The kind of this node.
    fn element_type(&self) -> (r: ElementType)
        ensures
            r == self.spec_element_type(),
    ;
}

/// Statement nodes report their kind.
pub trait StmtT {
    /// The kind of this node.
    spec fn spec_stmt_type(&self) -> StmtType;

    /// The kind of this node.
    fn stmt_type(&self) -> (r: StmtType)
        ensures
            r == self.spec_stmt_type(),
    ;
}

/// Declaration nodes report their kind.
pub trait DeclT {
    /// The kind of this node.
    spec fn spec_decl_type(&self) -> DeclType;

    /// The kind of this node.
    fn decl_type(&self) -> (r: DeclType)
        ensures
            r == self.spec_decl_type(),
    ;

    /// Whether this node is a variable declaration.
    fn is_var(&self) -> (r: bool)
        ensures
            r == (self.spec_decl_type() is Var),
    {
        match self.decl_type() {
            DeclType::Var => true,
            _ => false,
        }
    }
}

impl ExprT for Expr {
    open spec fn spec_element_type(&self) -> ElementType {
        match self {
            Expr::Literal(_) => ElementType::Literal,
            Expr::Grouping(_) => ElementType::Grouping,
            Expr::Unary(_) => ElementType::Unary,
            Expr::Binary(_) => ElementType::Binary,
            Expr::Logical(_) => ElementType::Logical,
            Expr::Assign(_) => ElementType::Assign,
            Expr::Call(_) => ElementType::Call,
        }
    }

    fn element_type(&self) -> (r: ElementType) {
        match self {
            Expr::Literal(_) => ElementType::Literal,
            Expr::Grouping(_) => ElementType::Grouping,
            Expr::Unary(_) => ElementType::Unary,
            Expr::Binary(_) => ElementType::Binary,
            Expr::Logical(_) => ElementType::Logical,
            Expr::Assign(_) => ElementType::Assign,
            Expr::Call(_) => ElementType::Call,
        }
    }
}

impl StmtT for Stmt {
    open spec fn spec_stmt_type(&self) -> StmtType {
        match self {
            Stmt::Expression(_) => StmtType::Expression,
            Stmt::Print(_) => StmtType::Print,
            Stmt::Block(_) => StmtType::Block,
            Stmt::If(_) => StmtType::If,
            Stmt::While(_) => StmtType::While,
            Stmt::Break(_) => StmtType::Break,
            Stmt::Return(_) => StmtType::Return,
        }
    }

    fn stmt_type(&self) -> (r: StmtType) {
        match self {
            Stmt::Expression(_) => StmtType::Expression,
            Stmt::Print(_) => StmtType::Print,
            Stmt::Block(_) => StmtType::Block,
            Stmt::If(_) => StmtType::If,
            Stmt::While(_) => StmtType::While,
            Stmt::Break(_) => StmtType::Break,
            Stmt::Return(_) => StmtType::Return,
        }
    }
}

impl DeclT for Decl {
    open spec fn spec_decl_type(&self) -> DeclType {
        match self {
            Decl::Var(_) => DeclType::Var,
            Decl::Fun(_) => DeclType::Fun,
            Decl::Stmt(_) => DeclType::Stmt,
        }
    }

    fn decl_type(&self) -> (r: DeclType) {
        match self {
            Decl::Var(_) => DeclType::Var,
            Decl::Fun(_) => DeclType::Fun,
            Decl::Stmt(_) => DeclType::Stmt,
        }
    }
}

/// Wraps an expression node as an expression.
pub fn wrap_expr(inner: Expr) -> (r: Expression)
    ensures
        r.value == inner,
{
    Expression { value: inner }
}

/// A number literal expression with a synthesized token.
pub fn get_num_literal(num: i64) -> (r: Expression)
    ensures
        r.value matches Expr::Literal(lit)
            && lit.value.ttype == crate::tokens::TokenType::Number(num)
            && lit.value.lexeme@ == Seq::<char>::empty(),
{
    Expression {
        value: Expr::Literal(
            Literal { value: Rc::new(crate::tokens::new_token(crate::tokens::TokenType::Number(num))) },
        ),
    }
}

/// Wraps an expression in a grouping node.
pub fn group_expr(expr: Expression) -> (r: Expression)
    ensures
        r.value matches Expr::Grouping(g) && g.expr == expr,
{
    Expression { value: Expr::Grouping(Box::new(Grouping { expr })) }
}

/// The size of an expression wrapper, counting every node beneath it.
pub open spec fn expression_size(e: Expression) -> nat
    decreases e,
{
    1 + expr_size(e.value)
}

/// The size of an expression node.
pub open spec fn expr_size(e: Expr) -> nat
    decreases e,
{
    match e {
        Expr::Literal(_) => 1,
        Expr::Grouping(g) => 1 + expression_size(g.expr),
        Expr::Unary(u) => 1 + expression_size(u.expr),
        Expr::Binary(b) => 1 + expression_size(b.left) + expression_size(b.right),
        Expr::Logical(l) => 1 + expression_size(l.left) + expression_size(l.right),
        Expr::Assign(a) => 1 + expression_size(a.value),
        Expr::Call(c) => 1 + expression_size(c.callee) + exprs_size(c.arguments@),
    }
}

/// The summed size of a list of expressions.
pub open spec fn exprs_size(es: Seq<Expression>) -> nat
    decreases es,
{
    if es.len() == 0 {
        0
    } else {
        1 + expression_size(es[0]) + exprs_size(es.drop_first())
    }
}

/// The size of a statement node.
pub open spec fn stmt_size(s: Stmt) -> nat
    decreases s,
{
    match s {
        Stmt::Expression(es) => 1 + expression_size(*es.value),
        Stmt::Print(ps) => 1 + expression_size(*ps.value),
        Stmt::Block(bs) => block_size(bs),
        Stmt::If(i) => 1 + expression_size(*i.condition) + stmt_decl_size(i.then_b) + (match i.else_b {
            Some(e) => stmt_decl_size(e),
            None => 0,
        }),
        Stmt::While(w) => 1 + expression_size(*w.condition) + block_size(w.body),
        Stmt::Break(_) => 1,
        Stmt::Return(r) => 1 + (match r.value {
            Some(e) => expression_size(*e),
            None => 0,
        }),
    }
}

/// The size of a block.
pub open spec fn block_size(b: BlockStmt) -> nat
    decreases b,
{
    1 + decls_size(b.declarations@)
}

/// The summed size of a list of declarations.
pub open spec fn decls_size(ds: Seq<DeclRef>) -> nat
    decreases ds,
{
    if ds.len() == 0 {
        0
    } else {
        1 + decl_size(*ds[0]) + decls_size(ds.drop_first())
    }
}

/// The size of a statement in declaration position.
pub open spec fn stmt_decl_size(sd: StmtDecl) -> nat
    decreases sd,
{
    1 + stmt_size(sd.stmt)
}

/// The view of an expression: the wrapper structs are flattened away
/// and tokens are seen as token views.
pub enum ExprV {
    Literal(crate::tokens::TokenV),
    Grouping(Box<ExprV>),
    Unary(crate::tokens::TokenV, Box<ExprV>),
    Binary(Box<ExprV>, crate::tokens::TokenV, Box<ExprV>),
    Logical(Box<ExprV>, crate::tokens::TokenV, Box<ExprV>),
    Assign(crate::tokens::TokenV, Box<ExprV>),
    Call(Box<ExprV>, Seq<ExprV>),
}

/// The view of a statement.
pub enum StmtV {
    Expression(ExprV),
    Print(ExprV),
    Block(Seq<DeclV>),
    If(ExprV, Box<StmtV>, Option<Box<StmtV>>),
    While(ExprV, Seq<DeclV>),
    Break,
    Return(Option<ExprV>),
}

/// The view of a declaration.
pub enum DeclV {
    Var(crate::tokens::TokenV, Option<ExprV>),
    Fun(crate::tokens::TokenV, Seq<crate::tokens::TokenV>, Seq<DeclV>),
    Stmt(StmtV),
}

/// The views of a list of shared tokens.
pub open spec fn token_views_of(ts: Seq<TokenRef>) -> Seq<crate::tokens::TokenV> {
    ts.map_values(|t: TokenRef| (*t)@)
}

/// The view of an expression wrapper.
pub open spec fn expression_view(e: Expression) -> ExprV
    decreases e,
{
    expr_view(e.value)
}

/// The view of an expression node.
pub open spec fn expr_view(e: Expr) -> ExprV
    decreases e,
{
    match e {
        Expr::Literal(l) => ExprV::Literal((*l.value)@),
        Expr::Grouping(g) => ExprV::Grouping(Box::new(expression_view(g.expr))),
        Expr::Unary(u) => ExprV::Unary((*u.operator)@, Box::new(expression_view(u.expr))),
        Expr::Binary(b) => ExprV::Binary(
            Box::new(expression_view(b.left)),
            (*b.operator)@,
            Box::new(expression_view(b.right)),
        ),
        Expr::Logical(l) => ExprV::Logical(
            Box::new(expression_view(l.left)),
            (*l.operator)@,
            Box::new(expression_view(l.right)),
        ),
        Expr::Assign(a) => ExprV::Assign((*a.identifier)@, Box::new(expression_view(a.value))),
        Expr::Call(c) => ExprV::Call(Box::new(expression_view(c.callee)), exprs_views(c.arguments@)),
    }
}

/// The views of a list of expressions.
pub open spec fn exprs_views(es: Seq<Expression>) -> Seq<ExprV>
    decreases es,
{
    if es.len() == 0 {
        Seq::empty()
    } else {
        exprs_views(es.drop_last()).push(expression_view(es.last()))
    }
}

/// The view of a statement node.
pub open spec fn stmt_view(s: Stmt) -> StmtV
    decreases s,
{
    match s {
        Stmt::Expression(es) => StmtV::Expression(expression_view(*es.value)),
        Stmt::Print(ps) => StmtV::Print(expression_view(*ps.value)),
        Stmt::Block(bs) => StmtV::Block(block_view(bs)),
        Stmt::If(i) => StmtV::If(
            expression_view(*i.condition),
            Box::new(stmt_view(i.then_b.stmt)),
            match i.else_b {
                Some(e) => Some(Box::new(stmt_view(e.stmt))),
                None => None,
            },
        ),
        Stmt::While(w) => StmtV::While(expression_view(*w.condition), block_view(w.body)),
        Stmt::Break(_) => StmtV::Break,
        Stmt::Return(r) => StmtV::Return(
            match r.value {
                Some(e) => Some(expression_view(*e)),
                None => None,
            },
        ),
    }
}

/// The view of a block: the views of its declarations.
pub open spec fn block_view(b: BlockStmt) -> Seq<DeclV>
    decreases b,
{
    decl_views(b.declarations@)
}

/// The views of a list of declarations.
pub open spec fn decl_views(ds: Seq<DeclRef>) -> Seq<DeclV>
    decreases ds,
{
    if ds.len() == 0 {
        Seq::empty()
    } else {
        seq![decl_view(*ds[0])] + decl_views(ds.drop_first())
    }
}

/// The view of a declaration node.
pub open spec fn decl_view(d: Decl) -> DeclV
    decreases d,
{
    match d {
        Decl::Var(vd) => DeclV::Var(
            (*vd.identifier)@,
            match vd.rhs {
                Some(e) => Some(expression_view(*e)),
                None => None,
            },
        ),
        Decl::Fun(fd) => DeclV::Fun(
            (*(*fd).identifier)@,
            token_views_of((*fd).params@),
            block_view((*fd).body),
        ),
        Decl::Stmt(sd) => DeclV::Stmt(stmt_view(sd.stmt)),
    }
}

/// The size of a declaration node.
pub open spec fn decl_size(d: Decl) -> nat
    decreases d,
{
    match d {
        Decl::Var(vd) => 1 + (match vd.rhs {
            Some(e) => expression_size(*e),
            None => 0,
        }),
        Decl::Fun(fd) => 1 + block_size(fd.body),
        Decl::Stmt(sd) => 1 + stmt_size(sd.stmt),
    }
}

} // verus!
