//! The syntax tree: declarations, statements and expressions, each with the
//! location of the source text that it was read from.
//!
//! Every type of node comes with a view, a value of the same shape in which
//! texts are sequences and shared subtrees stand in place. The contracts of
//! the parser speak of the views.

use crate::loc::Loc;
use std::rc::Rc;
use vstd::prelude::*;

verus! {

/// What every node of the syntax tree offers: its location.
pub trait Node {
    /// The location of the node.
    spec fn spec_loc(&self) -> Loc;

    fn loc(&self) -> (loc: &Loc)
        ensures
            *loc == self.spec_loc(),
    ;
}

/// The operator of an assignment that combines (`+=` and the like).
#[derive(Debug, Clone, Copy, PartialEq, Eq, Structural)]
pub enum AssignOp {
    Add,
    Sub,
    Mul,
    Div,
    Rem,
    And,
    Or,
    Xor,
    Shl,
    Shr,
    AndNot,
}

/// The sort of a numeric literal.
#[derive(Debug, Clone, Copy, PartialEq, Eq, Structural)]
pub enum LiteralKind {
    Dec,
    Oct,
    Hex,
    Float,
    Imaginary,
}

/// A unary operator.
#[derive(Debug, Clone, Copy, PartialEq, Eq, Structural)]
pub enum UnaryOp {
    Plus,
    Minus,
    Not,
    Xor,
    Deref,
    Addr,
    Recv,
}

/// A binary operator.
#[derive(Debug, Clone, Copy, PartialEq, Eq, Structural)]
pub enum BinaryOp {
    LogicalOr,
    LogicalAnd,
    Eq,
    NotEq,
    Lt,
    LtEq,
    Gt,
    GtEq,
    Add,
    Sub,
    Or,
    Xor,
    Mul,
    Div,
    Rem,
    Shl,
    Shr,
    And,
    AndNot,
}

/// An identifier.
#[derive(Debug, Clone, PartialEq, Eq)]
pub struct Id {
    pub loc: Loc,
    pub ident: String,
}

pub struct IdView {
    pub loc: Loc,
    pub ident: Seq<char>,
}

/// A string literal, with the bytes that it denotes.
#[derive(Debug, Clone, PartialEq, Eq)]
pub struct StringLit {
    pub loc: Loc,
    pub value: Vec<u8>,
}

pub struct StringLitView {
    pub loc: Loc,
    pub value: Seq<u8>,
}

/// A type, written as the name of the type.
#[derive(Debug, Clone, PartialEq, Eq)]
pub struct Type {
    pub loc: Loc,
    pub name: Id,
}

pub struct TypeView {
    pub loc: Loc,
    pub name: IdView,
}

/// An expression: an operand, what is selected from, called with or indexed in an
/// operand, or operators applied to expressions.
#[derive(Debug, Clone, PartialEq, Eq)]
pub enum Expression {
    /// A name.
    Ident { loc: Loc, ident: String },
    /// An integer, floating-point or imaginary literal, as it is written.
    Literal { loc: Loc, kind: LiteralKind, text: String },
    /// A rune literal.
    Rune { loc: Loc, value: char },
    /// A string literal.
    Str { loc: Loc, value: Vec<u8> },
    /// An expression in parentheses.
    Paren { loc: Loc, expr: Rc<Expression> },
    /// A name selected from an operand (`x.name`).
    Selector { loc: Loc, operand: Rc<Expression>, name: Id },
    /// A call of a function with arguments.
    Call { loc: Loc, callee: Rc<Expression>, args: Vec<Rc<Expression>> },
    /// An element of an operand (`x[i]`).
    Index { loc: Loc, operand: Rc<Expression>, index: Rc<Expression> },
    /// A unary operator applied to an operand.
    Unary { loc: Loc, op: UnaryOp, operand: Rc<Expression> },
    /// A binary operator applied to two operands.
    Binary {
        loc: Loc,
        op: BinaryOp,
        lhs: Rc<Expression>,
        rhs: Rc<Expression>,
    },
}

pub enum ExpressionView {
    Ident { loc: Loc, ident: Seq<char> },
    Literal { loc: Loc, kind: LiteralKind, text: Seq<char> },
    Rune { loc: Loc, value: char },
    Str { loc: Loc, value: Seq<u8> },
    Paren { loc: Loc, expr: Box<ExpressionView> },
    Selector { loc: Loc, operand: Box<ExpressionView>, name: IdView },
    Call { loc: Loc, callee: Box<ExpressionView>, args: Seq<ExpressionView> },
    Index { loc: Loc, operand: Box<ExpressionView>, index: Box<ExpressionView> },
    Unary { loc: Loc, op: UnaryOp, operand: Box<ExpressionView> },
    Binary {
        loc: Loc,
        op: BinaryOp,
        lhs: Box<ExpressionView>,
        rhs: Box<ExpressionView>,
    },
}

/// The clause that names the package of a source file.
#[derive(Debug, Clone, PartialEq, Eq)]
pub struct PackageClause {
    pub loc: Loc,
    pub name: Id,
}

pub struct PackageClauseView {
    pub loc: Loc,
    pub name: IdView,
}

/// The name under which a package is imported.
#[derive(Debug, Clone, PartialEq, Eq)]
pub enum ImportName {
    /// The package's names are imported into the file (`.`).
    Dot { loc: Loc },
    /// The package is imported under another name.
    Name { loc: Loc, name: String },
}

pub enum ImportNameView {
    Dot { loc: Loc },
    Name { loc: Loc, name: Seq<char> },
}

/// One imported package.
#[derive(Debug, Clone, PartialEq, Eq)]
pub struct ImportSpec {
    pub loc: Loc,
    pub name: Option<ImportName>,
    pub path: StringLit,
}

pub struct ImportSpecView {
    pub loc: Loc,
    pub name: Option<ImportNameView>,
    pub path: StringLitView,
}

/// One line of a constant or variable declaration: names, an optional type,
/// and the expressions that give the values.
#[derive(Debug, Clone, PartialEq, Eq)]
pub struct ConstSpec {
    pub loc: Loc,
    pub idents: Vec<Id>,
    pub type_: Option<Type>,
    pub exprs: Vec<Rc<Expression>>,
}

pub struct ConstSpecView {
    pub loc: Loc,
    pub idents: Seq<IdView>,
    pub type_: Option<TypeView>,
    pub exprs: Seq<ExpressionView>,
}

/// A constant declaration, with the specifications that it groups.
#[derive(Debug, Clone, PartialEq, Eq)]
pub struct ConstDecl {
    pub loc: Loc,
    pub specs: Vec<ConstSpec>,
}

pub struct ConstDeclView {
    pub loc: Loc,
    pub specs: Seq<ConstSpecView>,
}

/// A type declaration.
#[derive(Debug, Clone, PartialEq, Eq)]
pub struct TypeDecl {
    pub loc: Loc,
    pub name: Id,
    pub type_: Type,
}

pub struct TypeDeclView {
    pub loc: Loc,
    pub name: IdView,
    pub type_: TypeView,
}

/// A variable declaration. Its specifications have the shape of those of a
/// constant declaration.
#[derive(Debug, Clone, PartialEq, Eq)]
pub struct VarDecl {
    pub loc: Loc,
    pub specs: Vec<ConstSpec>,
}

pub struct VarDeclView {
    pub loc: Loc,
    pub specs: Seq<ConstSpecView>,
}

/// A declaration of constants, of a type or of variables.
#[derive(Debug, Clone, PartialEq, Eq)]
pub enum Declaration {
    Const { loc: Loc, decl: ConstDecl },
    Type { loc: Loc, decl: TypeDecl },
    Var { loc: Loc, decl: VarDecl },
}

pub enum DeclarationView {
    Const { loc: Loc, decl: ConstDeclView },
    Type { loc: Loc, decl: TypeDeclView },
    Var { loc: Loc, decl: VarDeclView },
}

/// A simple statement.
#[derive(Debug, Clone, PartialEq, Eq)]
pub enum SimpleStmt {
    /// An expression that stands as a statement.
    Expr { loc: Loc, expr: Rc<Expression> },
    /// A value sent on a channel (`<-`).
    Send { loc: Loc, chan: Rc<Expression>, value: Rc<Expression> },
    Inc { loc: Loc, lhs: Rc<Expression> },
    Dec { loc: Loc, lhs: Rc<Expression> },
    /// An assignment, plain (`=`) or with an operator (`+=`).
    Assign {
        loc: Loc,
        lhs: Vec<Rc<Expression>>,
        op: Option<AssignOp>,
        rhs: Vec<Rc<Expression>>,
    },
    /// A short variable declaration (`:=`).
    ShortVarDecl {
        loc: Loc,
        lhs: Vec<Rc<Expression>>,
        op: Option<AssignOp>,
        rhs: Vec<Rc<Expression>>,
    },
}

pub enum SimpleStmtView {
    Expr { loc: Loc, expr: ExpressionView },
    Send { loc: Loc, chan: ExpressionView, value: ExpressionView },
    Inc { loc: Loc, lhs: ExpressionView },
    Dec { loc: Loc, lhs: ExpressionView },
    Assign {
        loc: Loc,
        lhs: Seq<ExpressionView>,
        op: Option<AssignOp>,
        rhs: Seq<ExpressionView>,
    },
    ShortVarDecl {
        loc: Loc,
        lhs: Seq<ExpressionView>,
        op: Option<AssignOp>,
        rhs: Seq<ExpressionView>,
    },
}

/// A block: statements between braces.
#[derive(Debug, Clone, PartialEq, Eq)]
pub struct Block {
    pub loc: Loc,
    pub statements: Vec<Rc<Statement>>,
}

pub struct BlockView {
    pub loc: Loc,
    pub statements: Seq<StatementView>,
}

/// An `if` statement.
#[derive(Debug, Clone, PartialEq, Eq)]
pub struct IfStmt {
    pub loc: Loc,
    pub stmt: Option<SimpleStmt>,
    pub cond: Rc<Expression>,
    pub then_: Block,
    pub else_: Option<Rc<Else>>,
}

pub struct IfStmtView {
    pub loc: Loc,
    pub stmt: Option<SimpleStmtView>,
    pub cond: ExpressionView,
    pub then_: BlockView,
    pub else_: Option<Box<ElseView>>,
}

/// What follows `else`: another `if` statement, or a block.
#[derive(Debug, Clone, PartialEq, Eq)]
pub enum Else {
    If { loc: Loc, if_: IfStmt },
    Else { loc: Loc, else_: Block },
}

pub enum ElseView {
    If { loc: Loc, if_: IfStmtView },
    Else { loc: Loc, else_: BlockView },
}

/// A statement.
#[derive(Debug, Clone, PartialEq, Eq)]
pub enum Statement {
    Decl { loc: Loc, decl: Declaration },
    Labeled { loc: Loc, label: Id, stmt: Rc<Statement> },
    Simple { loc: Loc, simple: SimpleStmt },
    If { loc: Loc, if_: IfStmt },
}

pub enum StatementView {
    Decl { loc: Loc, decl: DeclarationView },
    Labeled { loc: Loc, label: IdView, stmt: Box<StatementView> },
    Simple { loc: Loc, simple: SimpleStmtView },
    If { loc: Loc, if_: IfStmtView },
}

/// A function declaration. Parameters and results are not modelled.
#[derive(Debug, Clone, PartialEq, Eq)]
pub struct FunctionDecl {
    pub loc: Loc,
    pub name: Id,
    pub body: Option<Block>,
}

pub struct FunctionDeclView {
    pub loc: Loc,
    pub name: IdView,
    pub body: Option<BlockView>,
}

/// A method declaration. Parameters and results are not modelled.
#[derive(Debug, Clone, PartialEq, Eq)]
pub struct MethodDecl {
    pub loc: Loc,
    pub receiver: Id,
    pub receiver_type: Type,
    pub name: Id,
    pub body: Option<Block>,
}

pub struct MethodDeclView {
    pub loc: Loc,
    pub receiver: IdView,
    pub receiver_type: TypeView,
    pub name: IdView,
    pub body: Option<BlockView>,
}

/// A source file.
#[derive(Debug, Clone, PartialEq, Eq)]
pub struct SourceFile {
    pub loc: Loc,
    pub package: Option<PackageClause>,
    pub imports: Vec<ImportSpec>,
    pub decls: Vec<TopLevelDecl>,
}

pub struct SourceFileView {
    pub loc: Loc,
    pub package: Option<PackageClauseView>,
    pub imports: Seq<ImportSpecView>,
    pub decls: Seq<TopLevelDeclView>,
}

/// A declaration at the top level of a source file.
#[derive(Debug, Clone, PartialEq, Eq)]
pub enum TopLevelDecl {
    Decl(Declaration),
    Func(FunctionDecl),
    Method(MethodDecl),
}

pub enum TopLevelDeclView {
    Decl(DeclarationView),
    Func(FunctionDeclView),
    Method(MethodDeclView),
}

/// The view of an expression.
pub open spec fn expression_view(node: Expression) -> ExpressionView
    decreases node,
{
    match node {
        Expression::Ident { loc, ident } => ExpressionView::Ident {
            loc,
            ident: ident@,
        },
        Expression::Literal { loc, kind, text } => ExpressionView::Literal {
            loc,
            kind,
            text: text@,
        },
        Expression::Rune { loc, value } => ExpressionView::Rune {
            loc,
            value,
        },
        Expression::Str { loc, value } => ExpressionView::Str {
            loc,
            value: value@,
        },
        Expression::Paren { loc, expr } => ExpressionView::Paren {
            loc,
            expr: Box::new(expression_view(*expr)),
        },
        Expression::Selector { loc, operand, name } => ExpressionView::Selector {
            loc,
            operand: Box::new(expression_view(*operand)),
            name: name.deep_view(),
        },
        Expression::Call { loc, callee, args } => ExpressionView::Call {
            loc,
            callee: Box::new(expression_view(*callee)),
            args: Seq::new(
                args@.len(),
                |i: int|
                    if 0 <= i < args@.len() {
                        expression_view(*args@[i])
                    } else {
                        arbitrary()
                    },
            ),
        },
        Expression::Index { loc, operand, index } => ExpressionView::Index {
            loc,
            operand: Box::new(expression_view(*operand)),
            index: Box::new(expression_view(*index)),
        },
        Expression::Unary { loc, op, operand } => ExpressionView::Unary {
            loc,
            op,
            operand: Box::new(expression_view(*operand)),
        },
        Expression::Binary { loc, op, lhs, rhs } => ExpressionView::Binary {
            loc,
            op,
            lhs: Box::new(expression_view(*lhs)),
            rhs: Box::new(expression_view(*rhs)),
        },
    }
}

/// The view of a block.
pub open spec fn block_view(node: Block) -> BlockView
    decreases node,
{
    BlockView {
        loc: node.loc,
        statements: Seq::new(
            node.statements@.len(),
            |i: int|
                if 0 <= i < node.statements@.len() {
                    statement_view(*node.statements@[i])
                } else {
                    arbitrary()
                },
        ),
    }
}

/// The view of an `if` statement.
pub open spec fn if_stmt_view(node: IfStmt) -> IfStmtView
    decreases node,
{
    IfStmtView {
        loc: node.loc,
        stmt: match node.stmt {
            Some(x) => Some(x.deep_view()),
            None => None,
        },
        cond: node.cond.deep_view(),
        then_: block_view(node.then_),
        else_: match node.else_ {
            Some(x) => Some(Box::new(else_view(*x))),
            None => None,
        },
    }
}

/// The view of an `else` branch.
pub open spec fn else_view(node: Else) -> ElseView
    decreases node,
{
    match node {
        Else::If { loc, if_ } => ElseView::If {
            loc,
            if_: if_stmt_view(if_),
        },
        Else::Else { loc, else_ } => ElseView::Else {
            loc,
            else_: block_view(else_),
        },
    }
}

/// The view of a statement.
pub open spec fn statement_view(node: Statement) -> StatementView
    decreases node,
{
    match node {
        Statement::Decl { loc, decl } => StatementView::Decl {
            loc,
            decl: decl.deep_view(),
        },
        Statement::Labeled { loc, label, stmt } => StatementView::Labeled {
            loc,
            label: label.deep_view(),
            stmt: Box::new(statement_view(*stmt)),
        },
        Statement::Simple { loc, simple } => StatementView::Simple {
            loc,
            simple: simple.deep_view(),
        },
        Statement::If { loc, if_ } => StatementView::If {
            loc,
            if_: if_stmt_view(if_),
        },
    }
}

impl DeepView for Id {
    type V = IdView;

    open spec fn deep_view(&self) -> IdView {
        IdView {
            loc: self.loc,
            ident: self.ident@,
        }
    }
}

impl DeepView for StringLit {
    type V = StringLitView;

    open spec fn deep_view(&self) -> StringLitView {
        StringLitView {
            loc: self.loc,
            value: self.value@,
        }
    }
}

impl DeepView for Type {
    type V = TypeView;

    open spec fn deep_view(&self) -> TypeView {
        TypeView {
            loc: self.loc,
            name: self.name.deep_view(),
        }
    }
}

impl DeepView for Expression {
    type V = ExpressionView;

    open spec fn deep_view(&self) -> ExpressionView {
        expression_view(*self)
    }
}

impl DeepView for PackageClause {
    type V = PackageClauseView;

    open spec fn deep_view(&self) -> PackageClauseView {
        PackageClauseView {
            loc: self.loc,
            name: self.name.deep_view(),
        }
    }
}

impl DeepView for ImportName {
    type V = ImportNameView;

    open spec fn deep_view(&self) -> ImportNameView {
        match *self {
            ImportName::Dot { loc } => ImportNameView::Dot {
                loc,
            },
            ImportName::Name { loc, name } => ImportNameView::Name {
                loc,
                name: name@,
            },
        }
    }
}

impl DeepView for ImportSpec {
    type V = ImportSpecView;

    open spec fn deep_view(&self) -> ImportSpecView {
        ImportSpecView {
            loc: self.loc,
            name: match self.name {
                Some(x) => Some(x.deep_view()),
                None => None,
            },
            path: self.path.deep_view(),
        }
    }
}

impl DeepView for ConstSpec {
    type V = ConstSpecView;

    open spec fn deep_view(&self) -> ConstSpecView {
        ConstSpecView {
            loc: self.loc,
            idents: self.idents.deep_view(),
            type_: match self.type_ {
                Some(x) => Some(x.deep_view()),
                None => None,
            },
            exprs: self.exprs.deep_view(),
        }
    }
}

impl DeepView for ConstDecl {
    type V = ConstDeclView;

    open spec fn deep_view(&self) -> ConstDeclView {
        ConstDeclView {
            loc: self.loc,
            specs: self.specs.deep_view(),
        }
    }
}

impl DeepView for TypeDecl {
    type V = TypeDeclView;

    open spec fn deep_view(&self) -> TypeDeclView {
        TypeDeclView {
            loc: self.loc,
            name: self.name.deep_view(),
            type_: self.type_.deep_view(),
        }
    }
}

impl DeepView for VarDecl {
    type V = VarDeclView;

    open spec fn deep_view(&self) -> VarDeclView {
        VarDeclView {
            loc: self.loc,
            specs: self.specs.deep_view(),
        }
    }
}

impl DeepView for Declaration {
    type V = DeclarationView;

    open spec fn deep_view(&self) -> DeclarationView {
        match *self {
            Declaration::Const { loc, decl } => DeclarationView::Const {
                loc,
                decl: decl.deep_view(),
            },
            Declaration::Type { loc, decl } => DeclarationView::Type {
                loc,
                decl: decl.deep_view(),
            },
            Declaration::Var { loc, decl } => DeclarationView::Var {
                loc,
                decl: decl.deep_view(),
            },
        }
    }
}

impl DeepView for SimpleStmt {
    type V = SimpleStmtView;

    open spec fn deep_view(&self) -> SimpleStmtView {
        match *self {
            SimpleStmt::Expr { loc, expr } => SimpleStmtView::Expr {
                loc,
                expr: expr.deep_view(),
            },
            SimpleStmt::Send { loc, chan, value } => SimpleStmtView::Send {
                loc,
                chan: chan.deep_view(),
                value: value.deep_view(),
            },
            SimpleStmt::Inc { loc, lhs } => SimpleStmtView::Inc {
                loc,
                lhs: lhs.deep_view(),
            },
            SimpleStmt::Dec { loc, lhs } => SimpleStmtView::Dec {
                loc,
                lhs: lhs.deep_view(),
            },
            SimpleStmt::Assign { loc, lhs, op, rhs } => SimpleStmtView::Assign {
                loc,
                lhs: lhs.deep_view(),
                op,
                rhs: rhs.deep_view(),
            },
            SimpleStmt::ShortVarDecl { loc, lhs, op, rhs } => SimpleStmtView::ShortVarDecl {
                loc,
                lhs: lhs.deep_view(),
                op,
                rhs: rhs.deep_view(),
            },
        }
    }
}

impl DeepView for Block {
    type V = BlockView;

    open spec fn deep_view(&self) -> BlockView {
        block_view(*self)
    }
}

impl DeepView for IfStmt {
    type V = IfStmtView;

    open spec fn deep_view(&self) -> IfStmtView {
        if_stmt_view(*self)
    }
}

impl DeepView for Else {
    type V = ElseView;

    open spec fn deep_view(&self) -> ElseView {
        else_view(*self)
    }
}

impl DeepView for Statement {
    type V = StatementView;

    open spec fn deep_view(&self) -> StatementView {
        statement_view(*self)
    }
}

impl DeepView for FunctionDecl {
    type V = FunctionDeclView;

    open spec fn deep_view(&self) -> FunctionDeclView {
        FunctionDeclView {
            loc: self.loc,
            name: self.name.deep_view(),
            body: match self.body {
                Some(x) => Some(x.deep_view()),
                None => None,
            },
        }
    }
}

impl DeepView for MethodDecl {
    type V = MethodDeclView;

    open spec fn deep_view(&self) -> MethodDeclView {
        MethodDeclView {
            loc: self.loc,
            receiver: self.receiver.deep_view(),
            receiver_type: self.receiver_type.deep_view(),
            name: self.name.deep_view(),
            body: match self.body {
                Some(x) => Some(x.deep_view()),
                None => None,
            },
        }
    }
}

impl DeepView for SourceFile {
    type V = SourceFileView;

    open spec fn deep_view(&self) -> SourceFileView {
        SourceFileView {
            loc: self.loc,
            package: match self.package {
                Some(x) => Some(x.deep_view()),
                None => None,
            },
            imports: self.imports.deep_view(),
            decls: self.decls.deep_view(),
        }
    }
}

impl DeepView for TopLevelDecl {
    type V = TopLevelDeclView;

    open spec fn deep_view(&self) -> TopLevelDeclView {
        match *self {
            TopLevelDecl::Decl(decl) => TopLevelDeclView::Decl(decl.deep_view()),
            TopLevelDecl::Func(decl) => TopLevelDeclView::Func(decl.deep_view()),
            TopLevelDecl::Method(decl) => TopLevelDeclView::Method(decl.deep_view()),
        }
    }
}

impl Node for Id {
    open spec fn spec_loc(&self) -> Loc {
        self.loc
    }

    fn loc(&self) -> (loc: &Loc) {
        &self.loc
    }
}

impl Node for StringLit {
    open spec fn spec_loc(&self) -> Loc {
        self.loc
    }

    fn loc(&self) -> (loc: &Loc) {
        &self.loc
    }
}

impl Node for Type {
    open spec fn spec_loc(&self) -> Loc {
        self.loc
    }

    fn loc(&self) -> (loc: &Loc) {
        &self.loc
    }
}

impl Node for Expression {
    open spec fn spec_loc(&self) -> Loc {
        match *self {
            Expression::Ident { loc, .. } => loc,
            Expression::Literal { loc, .. } => loc,
            Expression::Rune { loc, .. } => loc,
            Expression::Str { loc, .. } => loc,
            Expression::Paren { loc, .. } => loc,
            Expression::Selector { loc, .. } => loc,
            Expression::Call { loc, .. } => loc,
            Expression::Index { loc, .. } => loc,
            Expression::Unary { loc, .. } => loc,
            Expression::Binary { loc, .. } => loc,
        }
    }

    fn loc(&self) -> (loc: &Loc) {
        match self {
            Expression::Ident { loc, .. } => loc,
            Expression::Literal { loc, .. } => loc,
            Expression::Rune { loc, .. } => loc,
            Expression::Str { loc, .. } => loc,
            Expression::Paren { loc, .. } => loc,
            Expression::Selector { loc, .. } => loc,
            Expression::Call { loc, .. } => loc,
            Expression::Index { loc, .. } => loc,
            Expression::Unary { loc, .. } => loc,
            Expression::Binary { loc, .. } => loc,
        }
    }
}

impl Node for PackageClause {
    open spec fn spec_loc(&self) -> Loc {
        self.loc
    }

    fn loc(&self) -> (loc: &Loc) {
        &self.loc
    }
}

impl Node for ImportName {
    open spec fn spec_loc(&self) -> Loc {
        match *self {
            ImportName::Dot { loc, .. } => loc,
            ImportName::Name { loc, .. } => loc,
        }
    }

    fn loc(&self) -> (loc: &Loc) {
        match self {
            ImportName::Dot { loc, .. } => loc,
            ImportName::Name { loc, .. } => loc,
        }
    }
}

impl Node for ImportSpec {
    open spec fn spec_loc(&self) -> Loc {
        self.loc
    }

    fn loc(&self) -> (loc: &Loc) {
        &self.loc
    }
}

impl Node for ConstSpec {
    open spec fn spec_loc(&self) -> Loc {
        self.loc
    }

    fn loc(&self) -> (loc: &Loc) {
        &self.loc
    }
}

impl Node for ConstDecl {
    open spec fn spec_loc(&self) -> Loc {
        self.loc
    }

    fn loc(&self) -> (loc: &Loc) {
        &self.loc
    }
}

impl Node for TypeDecl {
    open spec fn spec_loc(&self) -> Loc {
        self.loc
    }

    fn loc(&self) -> (loc: &Loc) {
        &self.loc
    }
}

impl Node for VarDecl {
    open spec fn spec_loc(&self) -> Loc {
        self.loc
    }

    fn loc(&self) -> (loc: &Loc) {
        &self.loc
    }
}

impl Node for Declaration {
    open spec fn spec_loc(&self) -> Loc {
        match *self {
            Declaration::Const { loc, .. } => loc,
            Declaration::Type { loc, .. } => loc,
            Declaration::Var { loc, .. } => loc,
        }
    }

    fn loc(&self) -> (loc: &Loc) {
        match self {
            Declaration::Const { loc, .. } => loc,
            Declaration::Type { loc, .. } => loc,
            Declaration::Var { loc, .. } => loc,
        }
    }
}

impl Node for SimpleStmt {
    open spec fn spec_loc(&self) -> Loc {
        match *self {
            SimpleStmt::Expr { loc, .. } => loc,
            SimpleStmt::Send { loc, .. } => loc,
            SimpleStmt::Inc { loc, .. } => loc,
            SimpleStmt::Dec { loc, .. } => loc,
            SimpleStmt::Assign { loc, .. } => loc,
            SimpleStmt::ShortVarDecl { loc, .. } => loc,
        }
    }

    fn loc(&self) -> (loc: &Loc) {
        match self {
            SimpleStmt::Expr { loc, .. } => loc,
            SimpleStmt::Send { loc, .. } => loc,
            SimpleStmt::Inc { loc, .. } => loc,
            SimpleStmt::Dec { loc, .. } => loc,
            SimpleStmt::Assign { loc, .. } => loc,
            SimpleStmt::ShortVarDecl { loc, .. } => loc,
        }
    }
}

impl Node for Block {
    open spec fn spec_loc(&self) -> Loc {
        self.loc
    }

    fn loc(&self) -> (loc: &Loc) {
        &self.loc
    }
}

impl Node for IfStmt {
    open spec fn spec_loc(&self) -> Loc {
        self.loc
    }

    fn loc(&self) -> (loc: &Loc) {
        &self.loc
    }
}

impl Node for Else {
    open spec fn spec_loc(&self) -> Loc {
        match *self {
            Else::If { loc, .. } => loc,
            Else::Else { loc, .. } => loc,
        }
    }

    fn loc(&self) -> (loc: &Loc) {
        match self {
            Else::If { loc, .. } => loc,
            Else::Else { loc, .. } => loc,
        }
    }
}

impl Node for Statement {
    open spec fn spec_loc(&self) -> Loc {
        match *self {
            Statement::Decl { loc, .. } => loc,
            Statement::Labeled { loc, .. } => loc,
            Statement::Simple { loc, .. } => loc,
            Statement::If { loc, .. } => loc,
        }
    }

    fn loc(&self) -> (loc: &Loc) {
        match self {
            Statement::Decl { loc, .. } => loc,
            Statement::Labeled { loc, .. } => loc,
            Statement::Simple { loc, .. } => loc,
            Statement::If { loc, .. } => loc,
        }
    }
}

impl Node for FunctionDecl {
    open spec fn spec_loc(&self) -> Loc {
        self.loc
    }

    fn loc(&self) -> (loc: &Loc) {
        &self.loc
    }
}

impl Node for MethodDecl {
    open spec fn spec_loc(&self) -> Loc {
        self.loc
    }

    fn loc(&self) -> (loc: &Loc) {
        &self.loc
    }
}

impl Node for SourceFile {
    open spec fn spec_loc(&self) -> Loc {
        self.loc
    }

    fn loc(&self) -> (loc: &Loc) {
        &self.loc
    }
}

impl Node for TopLevelDecl {
    open spec fn spec_loc(&self) -> Loc {
        match *self {
            TopLevelDecl::Decl(decl) => decl.spec_loc(),
            TopLevelDecl::Func(decl) => decl.spec_loc(),
            TopLevelDecl::Method(decl) => decl.spec_loc(),
        }
    }

    fn loc(&self) -> (loc: &Loc) {
        match self {
            TopLevelDecl::Decl(decl) => decl.loc(),
            TopLevelDecl::Func(decl) => decl.loc(),
            TopLevelDecl::Method(decl) => decl.loc(),
        }
    }
}

} // verus!
