//! The semantic-error taxonomy.  Analysis is fail-fast: the first error
//! found anywhere in a sub-tree aborts that sub-tree and is handed to the
//! caller unchanged.
//!
//! An error carries a tag for the kind of violation, a back-reference to
//! the offending syntax-tree node for diagnostics, and the names and
//! types involved in the failed check.  In the mathematical model the
//! back-reference appears as the referenced node itself, so a contract
//! pins the payload down to the exact node the analyzer was looking at.

use vstd::prelude::*;

use crate::ast::{
    DeclarationSpecifier, FunctionDefinition, JumpStmt, LabeledStmt, PostfixExpr,
    SpecifierQualifier, UnaryExpr,
};
use crate::types::{type_view, Type, TypeV};

verus! {

/// Which binary-operator family an invalid-operand error came from.
/// Diagnostic only: it tags the precedence layer whose rule failed.
#[derive(Debug, Clone, Copy, PartialEq, Eq, Structural)]
pub enum BinOp {
    LogicalOr,
    LogicalAnd,
    BitOr,
    XOR,
    BitAnd,
    Equality,
    Comparision,
    Shift,
    Additive,
    Multiplicative,
}

/// A semantic error, borrowing the syntax tree it points into.
#[derive(Debug)]
pub enum SemanticError<'ast> {
    UndefinedVariable(String),
    UndefinedLabel(String),
    VariableRedeclaration(String),
    EnumRedeclaration(String),
    InvalidBinaryOperands(BinOp),
    TypeMismatch(Type, Type),
    UnexpectedType { expected: Type, actual: Type },
    InvalidInitializer,
    InvalidPostfixOperand(&'ast PostfixExpr),
    NotAFunction(&'ast PostfixExpr),
    InvalidFnCall(&'ast PostfixExpr),
    UndefinedMember { struct_name: String, field: String },
    NotAStruct(&'ast PostfixExpr),
    NotAPointerToStruct(&'ast PostfixExpr),
    InvalidUnaryOperand(&'ast UnaryExpr),
    InvalidDereferenceOperand(&'ast UnaryExpr),
    InvalidTypeCast { from: Type, to: Type },
    IllegalJump(&'ast JumpStmt),
    ReturnTypeMismatch { expected: Type, actual: Type },
    ReturnOutsideFn(&'ast JumpStmt),
    CaseOutsideSwitch(&'ast LabeledStmt),
    DefaultOutsideSwitch(&'ast LabeledStmt),
    LabelRedeclaration(&'ast LabeledStmt),
    InvalidSpecifierQualifiers(&'ast Vec<SpecifierQualifier>),
    InvalidFunctionDefinition(&'ast FunctionDefinition),
    InvalidDeclarationSpecifiers(&'ast Vec<DeclarationSpecifier>),
}

/// Mathematical model of a semantic error; a back-reference appears as
/// the referenced node, a specifier list as its sequence.
#[verifier::ext_equal]
pub ghost enum ErrV {
    UndefinedVariable(Seq<char>),
    UndefinedLabel(Seq<char>),
    VariableRedeclaration(Seq<char>),
    EnumRedeclaration(Seq<char>),
    InvalidBinaryOperands(BinOp),
    TypeMismatch(TypeV, TypeV),
    UnexpectedType { expected: TypeV, actual: TypeV },
    InvalidInitializer,
    InvalidPostfixOperand(PostfixExpr),
    NotAFunction(PostfixExpr),
    InvalidFnCall(PostfixExpr),
    UndefinedMember { struct_name: Seq<char>, field: Seq<char> },
    NotAStruct(PostfixExpr),
    NotAPointerToStruct(PostfixExpr),
    InvalidUnaryOperand(UnaryExpr),
    InvalidDereferenceOperand(UnaryExpr),
    InvalidTypeCast { from: TypeV, to: TypeV },
    IllegalJump(JumpStmt),
    ReturnTypeMismatch { expected: TypeV, actual: TypeV },
    ReturnOutsideFn(JumpStmt),
    CaseOutsideSwitch(LabeledStmt),
    DefaultOutsideSwitch(LabeledStmt),
    LabelRedeclaration(LabeledStmt),
    InvalidSpecifierQualifiers(Seq<SpecifierQualifier>),
    InvalidFunctionDefinition(FunctionDefinition),
    InvalidDeclarationSpecifiers(Seq<DeclarationSpecifier>),
}

impl<'ast> View for SemanticError<'ast> {
    type V = ErrV;

    open spec fn view(&self) -> ErrV {
        match self {
            SemanticError::UndefinedVariable(n) => ErrV::UndefinedVariable(n@),
            SemanticError::UndefinedLabel(n) => ErrV::UndefinedLabel(n@),
            SemanticError::VariableRedeclaration(n) => ErrV::VariableRedeclaration(n@),
            SemanticError::EnumRedeclaration(n) => ErrV::EnumRedeclaration(n@),
            SemanticError::InvalidBinaryOperands(op) => ErrV::InvalidBinaryOperands(*op),
            SemanticError::TypeMismatch(a, b) => ErrV::TypeMismatch(type_view(*a), type_view(*b)),
            SemanticError::UnexpectedType { expected, actual } => ErrV::UnexpectedType {
                expected: type_view(*expected),
                actual: type_view(*actual),
            },
            SemanticError::InvalidInitializer => ErrV::InvalidInitializer,
            SemanticError::InvalidPostfixOperand(e) => ErrV::InvalidPostfixOperand(**e),
            SemanticError::NotAFunction(e) => ErrV::NotAFunction(**e),
            SemanticError::InvalidFnCall(e) => ErrV::InvalidFnCall(**e),
            SemanticError::UndefinedMember { struct_name, field } => ErrV::UndefinedMember {
                struct_name: struct_name@,
                field: field@,
            },
            SemanticError::NotAStruct(e) => ErrV::NotAStruct(**e),
            SemanticError::NotAPointerToStruct(e) => ErrV::NotAPointerToStruct(**e),
            SemanticError::InvalidUnaryOperand(e) => ErrV::InvalidUnaryOperand(**e),
            SemanticError::InvalidDereferenceOperand(e) => ErrV::InvalidDereferenceOperand(**e),
            SemanticError::InvalidTypeCast { from, to } => ErrV::InvalidTypeCast {
                from: type_view(*from),
                to: type_view(*to),
            },
            SemanticError::IllegalJump(j) => ErrV::IllegalJump(**j),
            SemanticError::ReturnTypeMismatch { expected, actual } => ErrV::ReturnTypeMismatch {
                expected: type_view(*expected),
                actual: type_view(*actual),
            },
            SemanticError::ReturnOutsideFn(j) => ErrV::ReturnOutsideFn(**j),
            SemanticError::CaseOutsideSwitch(ls) => ErrV::CaseOutsideSwitch(**ls),
            SemanticError::DefaultOutsideSwitch(ls) => ErrV::DefaultOutsideSwitch(**ls),
            SemanticError::LabelRedeclaration(ls) => ErrV::LabelRedeclaration(**ls),
            SemanticError::InvalidSpecifierQualifiers(sqs) => ErrV::InvalidSpecifierQualifiers(
                sqs@,
            ),
            SemanticError::InvalidFunctionDefinition(f) => ErrV::InvalidFunctionDefinition(**f),
            SemanticError::InvalidDeclarationSpecifiers(dss) => ErrV::InvalidDeclarationSpecifiers(
                dss@,
            ),
        }
    }
}

/// The model of a typing result.
pub open spec fn res_ty_view<'ast>(r: Result<Type, SemanticError<'ast>>) -> Result<TypeV, ErrV> {
    match r {
        Ok(t) => Ok(type_view(t)),
        Err(e) => Err(e@),
    }
}

/// The model of a unit analysis result.
pub open spec fn res_unit_view<'ast>(r: Result<(), SemanticError<'ast>>) -> Result<(), ErrV> {
    match r {
        Ok(u) => Ok(u),
        Err(e) => Err(e@),
    }
}

} // verus!
