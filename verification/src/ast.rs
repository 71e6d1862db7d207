//! The abstract syntax tree the analyzer consumes: one variant per grammar
//! production, one enum per expression-precedence layer.
//!
//! Identifier and literal payloads are owned strings.  A floating-point
//! literal carries its spelled digits only: the analyzer reads the kind of
//! a literal, never its value.

use vstd::prelude::*;

verus! {

/// A storage-class keyword of a declaration.
#[derive(Debug, Clone, Copy, PartialEq, Eq, Structural)]
pub enum StorageClassSpecifier {
    Auto,
    Register,
    Static,
    Extern,
    TypeDef,
}

/// A type-qualifier keyword; recorded but ignored by type resolution.
#[derive(Debug, Clone, Copy, PartialEq, Eq, Structural)]
pub enum TypeQualifier {
    Const,
    Volatile,
}

/// One type-specifier token of a declaration or type name.
#[derive(Debug)]
pub enum TypeSpecifier {
    Void,
    Char,
    Short,
    Int,
    Long,
    Float,
    Double,
    Signed,
    UnSigned,
    StructOrUnionSpecifier(StructOrUnionSpecifier),
    EnumSpecifier(EnumSpecifier),
    TypeDefName(String),
}

/// A struct or union spelled with its member list.  Struct types are
/// always written out in full here: there is no separate struct registry.
#[derive(Debug)]
pub struct StructOrUnionSpecifier {
    pub is_union: bool,
    pub name: String,
    pub members: Vec<StructMember>,
}

/// One member declaration of a struct or union specifier.
#[derive(Debug)]
pub struct StructMember {
    pub specifier_qualifiers: Vec<SpecifierQualifier>,
    pub declarator: Declarator,
}

/// An enumeration spelled with its constant list.  Resolving it in a
/// declaration declares each constant; the constants all have type `int`.
#[derive(Debug)]
pub struct EnumSpecifier {
    pub name: String,
    pub constants: Vec<String>,
}

/// A specifier or qualifier inside a type name or struct member.
#[derive(Debug)]
pub enum SpecifierQualifier {
    TypeSpecifier(TypeSpecifier),
    TypeQualifier(TypeQualifier),
}

/// One declaration specifier.
#[derive(Debug)]
pub enum DeclarationSpecifier {
    StorageClassSpecifier(StorageClassSpecifier),
    TypeSpecifier(TypeSpecifier),
    TypeQualifier(TypeQualifier),
}

/// Pointer markers in front of a declarator: how many `*` were written.
#[derive(Debug)]
pub struct Pointer {
    pub levels: usize,
}

/// The part of a declarator that names the entity and adds array or
/// function shape.
#[derive(Debug)]
pub enum DirectDeclarator {
    Ident(String),
    Array(Box<DirectDeclarator>, usize),
    Function(Box<DirectDeclarator>, Vec<ParameterDeclaration>),
}

/// A declarator: optional pointer markers around a direct declarator.
#[derive(Debug)]
pub struct Declarator {
    pub pointer: Option<Pointer>,
    pub d_declarator: DirectDeclarator,
}

/// One parameter of a function declarator.
#[derive(Debug)]
pub struct ParameterDeclaration {
    pub declaration_specifiers: Vec<DeclarationSpecifier>,
    pub declarator: Declarator,
}

/// A declarator together with its optional initializer.
#[derive(Debug)]
pub enum InitDeclarator {
    Declared(Declarator),
    Initialized(Declarator, Initializer),
}

/// An initializer: a single expression or a brace-enclosed list.
#[derive(Debug)]
pub enum Initializer {
    Assignment(AssignmentExpr),
    InitializerList(Vec<Initializer>),
}

/// A declaration: specifiers plus a list of init declarators.
#[derive(Debug)]
pub struct Declaration {
    pub declaration_specifiers: Vec<DeclarationSpecifier>,
    pub init_declarators: Vec<InitDeclarator>,
}

/// A type name, as used by casts and `sizeof`.
#[derive(Debug)]
pub struct TypeName {
    pub specifier_qualifiers: Vec<SpecifierQualifier>,
    pub abstract_declarator: Option<Box<AbstractDeclarator>>,
}

/// An abstract declarator: pointer or array shape without a name.
#[derive(Debug)]
pub enum AbstractDeclarator {
    Pointer(Pointer),
    PointerWithDirect(Pointer, DirectAbstractDeclarator),
    Direct(DirectAbstractDeclarator),
}

/// The direct part of an abstract declarator: a bracketed element count.
#[derive(Debug)]
pub enum DirectAbstractDeclarator {
    Array(usize),
}

/// A whole translation unit.
#[derive(Debug)]
pub struct TranslationUnit(pub Vec<ExternalDeclaration>);

/// One top-level item.
#[derive(Debug)]
pub enum ExternalDeclaration {
    FunctionDefinition(FunctionDefinition),
    Declaration(Declaration),
}

/// A function definition: specifiers, the declarator carrying name and
/// parameters, and the body.
#[derive(Debug)]
pub struct FunctionDefinition {
    pub declaration_specifiers: Vec<DeclarationSpecifier>,
    pub declarator: Declarator,
    pub body: CompoundStmt,
}

/// A statement.
#[derive(Debug)]
pub enum Stmt {
    Labeled(LabeledStmt),
    EmptyStmt,
    Expr(AssignmentExpr),
    Compound(CompoundStmt),
    Selection(SelectionStmt),
    Iteration(IterationStmt),
    Jump(JumpStmt),
}

/// A labeled statement: a goto label, a `case`, or a `default`.
#[derive(Debug)]
pub enum LabeledStmt {
    Ident(String, Box<Stmt>),
    Case(ConditionalExpr, Box<Stmt>),
    Default(Box<Stmt>),
}

/// A brace-enclosed block.
#[derive(Debug)]
pub struct CompoundStmt(pub Vec<BlockItem>);

/// One item of a block: a declaration or a statement.
#[derive(Debug)]
pub enum BlockItem {
    Declaration(Declaration),
    Statement(Stmt),
}

/// `if`, `if`/`else` or `switch`.
#[derive(Debug)]
pub enum SelectionStmt {
    If { test: AssignmentExpr, pass: Box<Stmt> },
    IfElse { test: AssignmentExpr, pass: Box<Stmt>, fail: Box<Stmt> },
    Switch { test: AssignmentExpr, pass: Box<Stmt> },
}

/// `while`, `do`/`while` or `for`.
#[derive(Debug)]
pub enum IterationStmt {
    While { test: AssignmentExpr, body: Box<Stmt> },
    DoWhile { test: AssignmentExpr, body: Box<Stmt> },
    For {
        init: Option<AssignmentExpr>,
        test: Option<AssignmentExpr>,
        update: Option<AssignmentExpr>,
        body: Box<Stmt>,
    },
}

/// `goto`, `continue`, `break` or `return`.
#[derive(Debug)]
pub enum JumpStmt {
    Goto(String),
    Continue,
    Break,
    Return(Option<AssignmentExpr>),
}

/// Assignment layer: plain and compound assignment operators.
#[derive(Debug)]
pub enum AssignmentExpr {
    ConditionalExpr(ConditionalExpr),
    Assign(UnaryExpr, Box<AssignmentExpr>),
    MulAssign(UnaryExpr, Box<AssignmentExpr>),
    DivAssign(UnaryExpr, Box<AssignmentExpr>),
    ModAssign(UnaryExpr, Box<AssignmentExpr>),
    AddAssign(UnaryExpr, Box<AssignmentExpr>),
    SubAssign(UnaryExpr, Box<AssignmentExpr>),
    ShiftLeftAssign(UnaryExpr, Box<AssignmentExpr>),
    ShiftRightAssign(UnaryExpr, Box<AssignmentExpr>),
    BitAndAssign(UnaryExpr, Box<AssignmentExpr>),
    XORAssign(UnaryExpr, Box<AssignmentExpr>),
    BitOrAssign(UnaryExpr, Box<AssignmentExpr>),
}

/// Conditional layer: the ternary operator.
#[derive(Debug)]
pub enum ConditionalExpr {
    LogicalOrExpr(LogicalOrExpr),
    Ternary { test: LogicalOrExpr, pass: Box<AssignmentExpr>, fail: Box<ConditionalExpr> },
}

/// Logical-or layer.
#[derive(Debug)]
pub enum LogicalOrExpr {
    LogicalAndExpr(LogicalAndExpr),
    LogicalOr(Box<LogicalOrExpr>, LogicalAndExpr),
}

/// Logical-and layer.
#[derive(Debug)]
pub enum LogicalAndExpr {
    BitOrExpr(BitOrExpr),
    LogicalAnd(Box<LogicalAndExpr>, BitOrExpr),
}

/// Bitwise-or layer.
#[derive(Debug)]
pub enum BitOrExpr {
    XORExpr(XORExpr),
    BitOr(Box<BitOrExpr>, XORExpr),
}

/// Exclusive-or layer.
#[derive(Debug)]
pub enum XORExpr {
    BitAndExpr(BitAndExpr),
    XOR(Box<XORExpr>, BitAndExpr),
}

/// Bitwise-and layer.
#[derive(Debug)]
pub enum BitAndExpr {
    EqualityExpr(EqualityExpr),
    BitAnd(Box<BitAndExpr>, EqualityExpr),
}

/// Equality layer: `==` and `!=`.
#[derive(Debug)]
pub enum EqualityExpr {
    ComparisionExpr(ComparisionExpr),
    EQ(Box<EqualityExpr>, ComparisionExpr),
    NE(Box<EqualityExpr>, ComparisionExpr),
}

/// Relational layer: `<`, `>`, `<=`, `>=`.
#[derive(Debug)]
pub enum ComparisionExpr {
    ShiftExpr(ShiftExpr),
    LT(Box<ComparisionExpr>, ShiftExpr),
    GT(Box<ComparisionExpr>, ShiftExpr),
    LE(Box<ComparisionExpr>, ShiftExpr),
    GE(Box<ComparisionExpr>, ShiftExpr),
}

/// Shift layer.
#[derive(Debug)]
pub enum ShiftExpr {
    AdditiveExpr(AdditiveExpr),
    ShiftLeft(Box<ShiftExpr>, AdditiveExpr),
    ShiftRight(Box<ShiftExpr>, AdditiveExpr),
}

/// Additive layer.
#[derive(Debug)]
pub enum AdditiveExpr {
    MultiplicativeExpr(MultiplicativeExpr),
    Add(Box<AdditiveExpr>, MultiplicativeExpr),
    Sub(Box<AdditiveExpr>, MultiplicativeExpr),
}

/// Multiplicative layer; `%` is restricted to integer operands.
#[derive(Debug)]
pub enum MultiplicativeExpr {
    CastExpr(CastExpr),
    Mul(Box<MultiplicativeExpr>, CastExpr),
    Div(Box<MultiplicativeExpr>, CastExpr),
    Mod(Box<MultiplicativeExpr>, CastExpr),
}

/// Cast layer.
#[derive(Debug)]
pub enum CastExpr {
    UnaryExpr(UnaryExpr),
    Cast(TypeName, Box<CastExpr>),
}

/// Unary layer.
#[derive(Debug)]
pub enum UnaryExpr {
    PostfixExpr(PostfixExpr),
    PreIncr(Box<UnaryExpr>),
    PreDecr(Box<UnaryExpr>),
    Ref(Box<CastExpr>),
    Deref(Box<CastExpr>),
    UnaryAdd(Box<CastExpr>),
    UnarySub(Box<CastExpr>),
    OnesComplement(Box<CastExpr>),
    Not(Box<CastExpr>),
    SizeofExpr(Box<UnaryExpr>),
    SizeofTypeName(TypeName),
}

/// Postfix layer: indexing, calls, member access, post in/decrement.
#[derive(Debug)]
pub enum PostfixExpr {
    Primary(Primary),
    ArrayAccess(Box<PostfixExpr>, Box<AssignmentExpr>),
    FunctionCall(Box<PostfixExpr>, Vec<AssignmentExpr>),
    MemberAccess(Box<PostfixExpr>, String),
    PointerMemberAccess(Box<PostfixExpr>, String),
    PostIncr(Box<PostfixExpr>),
    PostDecr(Box<PostfixExpr>),
}

/// Primary layer: identifiers, literals and parenthesized expressions.
#[derive(Debug)]
pub enum Primary {
    Ident(String),
    Int(u64),
    Char(char),
    Float(String),
    EnumConstant(String),
    StringLiteral(String),
    Parens(Box<AssignmentExpr>),
}


impl From<LabeledStmt> for Stmt {
    /// Wraps a labeled statement as a statement.
    fn from(value: LabeledStmt) -> (r: Stmt)
        ensures
            r == Stmt::Labeled(value),
    {
        Stmt::Labeled(value)
    }
}

impl vstd::std_specs::convert::FromSpecImpl<LabeledStmt> for Stmt {
    open spec fn obeys_from_spec() -> bool {
        true
    }

    open spec fn from_spec(value: LabeledStmt) -> Stmt {
        Stmt::Labeled(value)
    }
}

impl From<CompoundStmt> for Stmt {
    /// Wraps a block as a statement.
    fn from(value: CompoundStmt) -> (r: Stmt)
        ensures
            r == Stmt::Compound(value),
    {
        Stmt::Compound(value)
    }
}

impl vstd::std_specs::convert::FromSpecImpl<CompoundStmt> for Stmt {
    open spec fn obeys_from_spec() -> bool {
        true
    }

    open spec fn from_spec(value: CompoundStmt) -> Stmt {
        Stmt::Compound(value)
    }
}

impl From<SelectionStmt> for Stmt {
    /// Wraps a selection statement as a statement.
    fn from(value: SelectionStmt) -> (r: Stmt)
        ensures
            r == Stmt::Selection(value),
    {
        Stmt::Selection(value)
    }
}

impl vstd::std_specs::convert::FromSpecImpl<SelectionStmt> for Stmt {
    open spec fn obeys_from_spec() -> bool {
        true
    }

    open spec fn from_spec(value: SelectionStmt) -> Stmt {
        Stmt::Selection(value)
    }
}

impl From<IterationStmt> for Stmt {
    /// Wraps an iteration statement as a statement.
    fn from(value: IterationStmt) -> (r: Stmt)
        ensures
            r == Stmt::Iteration(value),
    {
        Stmt::Iteration(value)
    }
}

impl vstd::std_specs::convert::FromSpecImpl<IterationStmt> for Stmt {
    open spec fn obeys_from_spec() -> bool {
        true
    }

    open spec fn from_spec(value: IterationStmt) -> Stmt {
        Stmt::Iteration(value)
    }
}

impl From<JumpStmt> for Stmt {
    /// Wraps a jump statement as a statement.
    fn from(value: JumpStmt) -> (r: Stmt)
        ensures
            r == Stmt::Jump(value),
    {
        Stmt::Jump(value)
    }
}

impl vstd::std_specs::convert::FromSpecImpl<JumpStmt> for Stmt {
    open spec fn obeys_from_spec() -> bool {
        true
    }

    open spec fn from_spec(value: JumpStmt) -> Stmt {
        Stmt::Jump(value)
    }
}

} // verus!
