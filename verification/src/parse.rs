//! A recursive-descent parser from tokens to the analyzer's syntax tree.
//! Each parser hands back the node it read and the position after it;
//! a successful parse always consumes at least one token.

use vstd::prelude::*;

use crate::ast::{
    AbstractDeclarator, AdditiveExpr, AssignmentExpr, BitAndExpr, BitOrExpr, BlockItem, CastExpr,
    ComparisionExpr, CompoundStmt, ConditionalExpr, Declaration, DeclarationSpecifier,
    Declarator, DirectAbstractDeclarator, DirectDeclarator, EqualityExpr, InitDeclarator,
    Initializer, IterationStmt, JumpStmt, LabeledStmt, LogicalAndExpr, LogicalOrExpr,
    MultiplicativeExpr, ParameterDeclaration, Pointer, PostfixExpr, Primary, SelectionStmt, ShiftExpr,
    SpecifierQualifier, Stmt, TypeName, TypeQualifier, TypeSpecifier, UnaryExpr, XORExpr,
};
use crate::lex::Token;

verus! {

/// Why a parse failed: no rule applied, or a specific token was missing.
#[derive(Debug)]
pub enum ParseError {
    SyntaxError(usize),
    Expected(Token, usize),
}

/// Carried through the statement entry point; the grammar here needs no
/// state, so it only marks one parse run.
#[derive(Debug)]
pub struct ParseContext {}

impl ParseContext {
    /// A fresh context for one parse run.
    pub fn new() -> (r: ParseContext) {
        ParseContext {}
    }
}

/// Whether this token can begin a type name.
pub fn starts_type(t: &Token) -> (r: bool) {
    match t {
        Token::KwVoid | Token::KwChar | Token::KwShort | Token::KwInt | Token::KwLong
            | Token::KwFloat | Token::KwDouble | Token::KwSigned | Token::KwUnsigned
            | Token::KwConst | Token::KwVolatile => true,
        _ => false,
    }
}

/// Reads one specifier-qualifier keyword.
fn parse_specifier_qualifier(tokens: &Vec<Token>, pos: usize) -> (r: Result<
    (SpecifierQualifier, usize),
    ParseError,
>)
    requires
        pos <= tokens@.len(),
    ensures
        r matches Ok(p) ==> pos < p.1 <= tokens@.len(),
{
    if pos >= tokens.len() {
        return Err(ParseError::SyntaxError(pos));
    }
    let sq = match &tokens[pos] {
        Token::KwVoid => SpecifierQualifier::TypeSpecifier(TypeSpecifier::Void),
        Token::KwChar => SpecifierQualifier::TypeSpecifier(TypeSpecifier::Char),
        Token::KwShort => SpecifierQualifier::TypeSpecifier(TypeSpecifier::Short),
        Token::KwInt => SpecifierQualifier::TypeSpecifier(TypeSpecifier::Int),
        Token::KwLong => SpecifierQualifier::TypeSpecifier(TypeSpecifier::Long),
        Token::KwFloat => SpecifierQualifier::TypeSpecifier(TypeSpecifier::Float),
        Token::KwDouble => SpecifierQualifier::TypeSpecifier(TypeSpecifier::Double),
        Token::KwSigned => SpecifierQualifier::TypeSpecifier(TypeSpecifier::Signed),
        Token::KwUnsigned => SpecifierQualifier::TypeSpecifier(TypeSpecifier::UnSigned),
        Token::KwConst => SpecifierQualifier::TypeQualifier(TypeQualifier::Const),
        Token::KwVolatile => SpecifierQualifier::TypeQualifier(TypeQualifier::Volatile),
        _ => {
            return Err(ParseError::SyntaxError(pos));
        },
    };
    Ok((sq, pos + 1))
}

/// Reads a type name: one or more specifier-qualifier keywords, then an
/// optional pointer or array shape.
pub fn parse_type_name(tokens: &Vec<Token>, pos: usize) -> (r: Result<
    (TypeName, usize),
    ParseError,
>)
    requires
        pos <= tokens@.len(),
    ensures
        r matches Ok(p) ==> pos < p.1 <= tokens@.len(),
{
    let mut sqs: Vec<SpecifierQualifier> = Vec::new();
    let (sq0, mut p) = match parse_specifier_qualifier(tokens, pos) {
        Ok(x) => x,
        Err(e) => {
            return Err(e);
        },
    };
    sqs.push(sq0);
    while p < tokens.len() && starts_type(&tokens[p])
        invariant
            pos < p <= tokens@.len(),
        decreases tokens@.len() - p,
    {
        let (sq, p2) = match parse_specifier_qualifier(tokens, p) {
            Ok(x) => x,
            Err(e) => {
                return Err(e);
            },
        };
        sqs.push(sq);
        p = p2;
    }
    let mut levels: usize = 0;
    while p < tokens.len() && matches!(&tokens[p], Token::Asterisk) && levels < usize::MAX
        invariant
            pos < p <= tokens@.len(),
        decreases tokens@.len() - p,
    {
        levels += 1;
        p += 1;
    }
    let mut size: Option<usize> = None;
    if p < tokens.len() && matches!(&tokens[p], Token::LSquare) && tokens.len() - p >= 3 {
        let v = match &tokens[p + 1] {
            Token::Whole(v) => Some(*v),
            _ => None,
        };
        if v.is_some() && matches!(&tokens[p + 2], Token::RSquare) {
            let vv = match v {
                Some(x) => x,
                None => 0,
            };
            if vv <= usize::MAX as u64 {
                size = Some(vv as usize);
                p += 3;
            }
        }
    }
    let ad: Option<Box<AbstractDeclarator>> = if levels > 0 && size.is_some() {
        let n = match size {
            Some(x) => x,
            None => 0,
        };
        Some(
            Box::new(
                AbstractDeclarator::PointerWithDirect(
                    Pointer { levels },
                    DirectAbstractDeclarator::Array(n),
                ),
            ),
        )
    } else if levels > 0 {
        Some(Box::new(AbstractDeclarator::Pointer(Pointer { levels })))
    } else if size.is_some() {
        let n = match size {
            Some(x) => x,
            None => 0,
        };
        Some(Box::new(AbstractDeclarator::Direct(DirectAbstractDeclarator::Array(n))))
    } else {
        None
    };
    Ok((TypeName { specifier_qualifiers: sqs, abstract_declarator: ad }, p))
}

/// Reads a primary expression.
pub fn parse_primary_expr(tokens: &Vec<Token>, pos: usize) -> (r: Result<
    (Primary, usize),
    ParseError,
>)
    requires
        pos <= tokens@.len(),
    ensures
        r matches Ok(p) ==> pos < p.1 <= tokens@.len(),
    decreases tokens@.len() - pos, 1int,
{
    if pos >= tokens.len() {
        return Err(ParseError::SyntaxError(pos));
    }
    match &tokens[pos] {
        Token::Ident(n) => Ok((Primary::Ident(n.clone()), pos + 1)),
        Token::Whole(v) => Ok((Primary::Int(*v), pos + 1)),
        Token::CharLit(c) => Ok((Primary::Char(*c), pos + 1)),
        Token::Decimal(s) => Ok((Primary::Float(s.clone()), pos + 1)),
        Token::StringLiteral(s) => Ok((Primary::StringLiteral(s.clone()), pos + 1)),
        Token::LParen => {
            let (e, p) = match parse_assignment_expr(tokens, pos + 1) {
                Ok(x) => x,
                Err(e) => {
                    return Err(e);
                },
            };
            if p < tokens.len() && matches!(&tokens[p], Token::RParen) {
                Ok((Primary::Parens(Box::new(e)), p + 1))
            } else {
                Err(ParseError::Expected(Token::RParen, p))
            }
        },
        _ => Err(ParseError::SyntaxError(pos)),
    }
}

/// Reads a postfix expression: a primary followed by any run of
/// indexings, calls, member accesses and post in/decrements.
pub fn parse_postfix_expr(tokens: &Vec<Token>, pos: usize) -> (r: Result<
    (PostfixExpr, usize),
    ParseError,
>)
    requires
        pos <= tokens@.len(),
    ensures
        r matches Ok(p) ==> pos < p.1 <= tokens@.len(),
    decreases tokens@.len() - pos, 2int,
{
    let (prim, p0) = match parse_primary_expr(tokens, pos) {
        Ok(x) => x,
        Err(e) => {
            return Err(e);
        },
    };
    let mut acc = PostfixExpr::Primary(prim);
    let mut p = p0;
    loop
        invariant
            pos < p <= tokens@.len(),
        decreases tokens@.len() - p,
    {
        if p >= tokens.len() {
            break;
        }
        match &tokens[p] {
            Token::LSquare => {
                let (idx, p2) = match parse_assignment_expr(tokens, p + 1) {
                    Ok(x) => x,
                    Err(e) => {
                        return Err(e);
                    },
                };
                if p2 < tokens.len() && matches!(&tokens[p2], Token::RSquare) {
                    acc = PostfixExpr::ArrayAccess(Box::new(acc), Box::new(idx));
                    p = p2 + 1;
                } else {
                    return Err(ParseError::Expected(Token::RSquare, p2));
                }
            },
            Token::LParen => {
                let mut args: Vec<AssignmentExpr> = Vec::new();
                let mut p2 = p + 1;
                if p2 < tokens.len() && matches!(&tokens[p2], Token::RParen) {
                    acc = PostfixExpr::FunctionCall(Box::new(acc), args);
                    p = p2 + 1;
                } else {
                    let (a0, p3) = match parse_assignment_expr(tokens, p2) {
                        Ok(x) => x,
                        Err(e) => {
                            return Err(e);
                        },
                    };
                    args.push(a0);
                    p2 = p3;
                    while p2 < tokens.len() && matches!(&tokens[p2], Token::Comma)
                        invariant
                            p < p2 <= tokens@.len(),
                            pos < p,
                            p < tokens@.len(),
                        decreases tokens@.len() - p2,
                    {
                        let (a, p4) = match parse_assignment_expr(tokens, p2 + 1) {
                            Ok(x) => x,
                            Err(e) => {
                                return Err(e);
                            },
                        };
                        args.push(a);
                        p2 = p4;
                    }
                    if p2 < tokens.len() && matches!(&tokens[p2], Token::RParen) {
                        acc = PostfixExpr::FunctionCall(Box::new(acc), args);
                        p = p2 + 1;
                    } else {
                        return Err(ParseError::Expected(Token::RParen, p2));
                    }
                }
            },
            Token::Dot => {
                if p + 1 < tokens.len() {
                    match &tokens[p + 1] {
                        Token::Ident(n) => {
                            acc = PostfixExpr::MemberAccess(Box::new(acc), n.clone());
                            p = p + 2;
                        },
                        _ => {
                            return Err(ParseError::SyntaxError(p + 1));
                        },
                    }
                } else {
                    return Err(ParseError::SyntaxError(p));
                }
            },
            Token::Arrow => {
                if p + 1 < tokens.len() {
                    match &tokens[p + 1] {
                        Token::Ident(n) => {
                            acc = PostfixExpr::PointerMemberAccess(Box::new(acc), n.clone());
                            p = p + 2;
                        },
                        _ => {
                            return Err(ParseError::SyntaxError(p + 1));
                        },
                    }
                } else {
                    return Err(ParseError::SyntaxError(p));
                }
            },
            Token::PlusPlus => {
                acc = PostfixExpr::PostIncr(Box::new(acc));
                p = p + 1;
            },
            Token::HyphenHyphen => {
                acc = PostfixExpr::PostDecr(Box::new(acc));
                p = p + 1;
            },
            _ => {
                break;
            },
        }
    }
    Ok((acc, p))
}

/// Reads a unary expression.
pub fn parse_unary_expr(tokens: &Vec<Token>, pos: usize) -> (r: Result<
    (UnaryExpr, usize),
    ParseError,
>)
    requires
        pos <= tokens@.len(),
    ensures
        r matches Ok(p) ==> pos < p.1 <= tokens@.len(),
    decreases tokens@.len() - pos, 3int,
{
    if pos >= tokens.len() {
        return Err(ParseError::SyntaxError(pos));
    }
    match &tokens[pos] {
        Token::PlusPlus => {
            let (e, p) = match parse_unary_expr(tokens, pos + 1) {
                Ok(x) => x,
                Err(e) => {
                    return Err(e);
                },
            };
            Ok((UnaryExpr::PreIncr(Box::new(e)), p))
        },
        Token::HyphenHyphen => {
            let (e, p) = match parse_unary_expr(tokens, pos + 1) {
                Ok(x) => x,
                Err(e) => {
                    return Err(e);
                },
            };
            Ok((UnaryExpr::PreDecr(Box::new(e)), p))
        },
        Token::Ampersand => {
            let (e, p) = match parse_cast_expr(tokens, pos + 1) {
                Ok(x) => x,
                Err(e) => {
                    return Err(e);
                },
            };
            Ok((UnaryExpr::Ref(Box::new(e)), p))
        },
        Token::Asterisk => {
            let (e, p) = match parse_cast_expr(tokens, pos + 1) {
                Ok(x) => x,
                Err(e) => {
                    return Err(e);
                },
            };
            Ok((UnaryExpr::Deref(Box::new(e)), p))
        },
        Token::Plus => {
            let (e, p) = match parse_cast_expr(tokens, pos + 1) {
                Ok(x) => x,
                Err(e) => {
                    return Err(e);
                },
            };
            Ok((UnaryExpr::UnaryAdd(Box::new(e)), p))
        },
        Token::Hyphen => {
            let (e, p) = match parse_cast_expr(tokens, pos + 1) {
                Ok(x) => x,
                Err(e) => {
                    return Err(e);
                },
            };
            Ok((UnaryExpr::UnarySub(Box::new(e)), p))
        },
        Token::Tilde => {
            let (e, p) = match parse_cast_expr(tokens, pos + 1) {
                Ok(x) => x,
                Err(e) => {
                    return Err(e);
                },
            };
            Ok((UnaryExpr::OnesComplement(Box::new(e)), p))
        },
        Token::Exclamation => {
            let (e, p) = match parse_cast_expr(tokens, pos + 1) {
                Ok(x) => x,
                Err(e) => {
                    return Err(e);
                },
            };
            Ok((UnaryExpr::Not(Box::new(e)), p))
        },
        Token::KwSizeof => {
            if pos + 1 < tokens.len() && matches!(&tokens[pos + 1], Token::LParen) && pos + 2
                < tokens.len() && starts_type(&tokens[pos + 2]) {
                let (tn, p) = match parse_type_name(tokens, pos + 2) {
                    Ok(x) => x,
                    Err(e) => {
                        return Err(e);
                    },
                };
                if p < tokens.len() && matches!(&tokens[p], Token::RParen) {
                    Ok((UnaryExpr::SizeofTypeName(tn), p + 1))
                } else {
                    Err(ParseError::Expected(Token::RParen, p))
                }
            } else {
                let (e, p) = match parse_unary_expr(tokens, pos + 1) {
                    Ok(x) => x,
                    Err(e) => {
                        return Err(e);
                    },
                };
                Ok((UnaryExpr::SizeofExpr(Box::new(e)), p))
            }
        },
        _ => {
            let (e, p) = match parse_postfix_expr(tokens, pos) {
                Ok(x) => x,
                Err(e) => {
                    return Err(e);
                },
            };
            Ok((UnaryExpr::PostfixExpr(e), p))
        },
    }
}

/// Reads a cast expression: a parenthesized type name applied to a cast
/// expression, or a unary expression.
pub fn parse_cast_expr(tokens: &Vec<Token>, pos: usize) -> (r: Result<
    (CastExpr, usize),
    ParseError,
>)
    requires
        pos <= tokens@.len(),
    ensures
        r matches Ok(p) ==> pos < p.1 <= tokens@.len(),
    decreases tokens@.len() - pos, 4int,
{
    if pos < tokens.len() && pos + 1 < tokens.len() && matches!(&tokens[pos], Token::LParen)
        && starts_type(&tokens[pos + 1]) {
        let (tn, p) = match parse_type_name(tokens, pos + 1) {
            Ok(x) => x,
            Err(e) => {
                return Err(e);
            },
        };
        if p < tokens.len() && matches!(&tokens[p], Token::RParen) {
            let (e, p2) = match parse_cast_expr(tokens, p + 1) {
                Ok(x) => x,
                Err(e) => {
                    return Err(e);
                },
            };
            Ok((CastExpr::Cast(tn, Box::new(e)), p2))
        } else {
            Err(ParseError::Expected(Token::RParen, p))
        }
    } else {
        let (e, p) = match parse_unary_expr(tokens, pos) {
            Ok(x) => x,
            Err(e) => {
                return Err(e);
            },
        };
        Ok((CastExpr::UnaryExpr(e), p))
    }
}

/// Reads a multiplicative expression.
pub fn parse_multiplicative_expr(tokens: &Vec<Token>, pos: usize) -> (r: Result<
    (MultiplicativeExpr, usize),
    ParseError,
>)
    requires
        pos <= tokens@.len(),
    ensures
        r matches Ok(p) ==> pos < p.1 <= tokens@.len(),
    decreases tokens@.len() - pos, 5int,
{
    let (e0, p0) = match parse_cast_expr(tokens, pos) {
        Ok(x) => x,
        Err(e) => {
            return Err(e);
        },
    };
    let mut acc = MultiplicativeExpr::CastExpr(e0);
    let mut p = p0;
    while p < tokens.len() && (matches!(&tokens[p], Token::Asterisk) || matches!(
        &tokens[p],
        Token::Slash,
    ) || matches!(&tokens[p], Token::Percent))
        invariant
            pos < p <= tokens@.len(),
        decreases tokens@.len() - p,
    {
        let op_mul = matches!(&tokens[p], Token::Asterisk);
        let op_div = matches!(&tokens[p], Token::Slash);
        let (rhs, p2) = match parse_cast_expr(tokens, p + 1) {
            Ok(x) => x,
            Err(e) => {
                return Err(e);
            },
        };
        acc = if op_mul {
            MultiplicativeExpr::Mul(Box::new(acc), rhs)
        } else if op_div {
            MultiplicativeExpr::Div(Box::new(acc), rhs)
        } else {
            MultiplicativeExpr::Mod(Box::new(acc), rhs)
        };
        p = p2;
    }
    Ok((acc, p))
}

/// Reads an additive expression.
pub fn parse_additive_expr(tokens: &Vec<Token>, pos: usize) -> (r: Result<
    (AdditiveExpr, usize),
    ParseError,
>)
    requires
        pos <= tokens@.len(),
    ensures
        r matches Ok(p) ==> pos < p.1 <= tokens@.len(),
    decreases tokens@.len() - pos, 6int,
{
    let (e0, p0) = match parse_multiplicative_expr(tokens, pos) {
        Ok(x) => x,
        Err(e) => {
            return Err(e);
        },
    };
    let mut acc = AdditiveExpr::MultiplicativeExpr(e0);
    let mut p = p0;
    while p < tokens.len() && (matches!(&tokens[p], Token::Plus) || matches!(
        &tokens[p],
        Token::Hyphen,
    ))
        invariant
            pos < p <= tokens@.len(),
        decreases tokens@.len() - p,
    {
        let op_add = matches!(&tokens[p], Token::Plus);
        let (rhs, p2) = match parse_multiplicative_expr(tokens, p + 1) {
            Ok(x) => x,
            Err(e) => {
                return Err(e);
            },
        };
        acc = if op_add {
            AdditiveExpr::Add(Box::new(acc), rhs)
        } else {
            AdditiveExpr::Sub(Box::new(acc), rhs)
        };
        p = p2;
    }
    Ok((acc, p))
}

/// Reads a shift expression.
pub fn parse_shift_expr(tokens: &Vec<Token>, pos: usize) -> (r: Result<
    (ShiftExpr, usize),
    ParseError,
>)
    requires
        pos <= tokens@.len(),
    ensures
        r matches Ok(p) ==> pos < p.1 <= tokens@.len(),
    decreases tokens@.len() - pos, 7int,
{
    let (e0, p0) = match parse_additive_expr(tokens, pos) {
        Ok(x) => x,
        Err(e) => {
            return Err(e);
        },
    };
    let mut acc = ShiftExpr::AdditiveExpr(e0);
    let mut p = p0;
    while p < tokens.len() && (matches!(&tokens[p], Token::LTLT) || matches!(
        &tokens[p],
        Token::GTGT,
    ))
        invariant
            pos < p <= tokens@.len(),
        decreases tokens@.len() - p,
    {
        let op_l = matches!(&tokens[p], Token::LTLT);
        let (rhs, p2) = match parse_additive_expr(tokens, p + 1) {
            Ok(x) => x,
            Err(e) => {
                return Err(e);
            },
        };
        acc = if op_l {
            ShiftExpr::ShiftLeft(Box::new(acc), rhs)
        } else {
            ShiftExpr::ShiftRight(Box::new(acc), rhs)
        };
        p = p2;
    }
    Ok((acc, p))
}

/// Reads a relational expression.
pub fn parse_comparision_expr(tokens: &Vec<Token>, pos: usize) -> (r: Result<
    (ComparisionExpr, usize),
    ParseError,
>)
    requires
        pos <= tokens@.len(),
    ensures
        r matches Ok(p) ==> pos < p.1 <= tokens@.len(),
    decreases tokens@.len() - pos, 8int,
{
    let (e0, p0) = match parse_shift_expr(tokens, pos) {
        Ok(x) => x,
        Err(e) => {
            return Err(e);
        },
    };
    let mut acc = ComparisionExpr::ShiftExpr(e0);
    let mut p = p0;
    while p < tokens.len() && (matches!(&tokens[p], Token::LT) || matches!(&tokens[p], Token::GT)
        || matches!(&tokens[p], Token::LE) || matches!(&tokens[p], Token::GE))
        invariant
            pos < p <= tokens@.len(),
        decreases tokens@.len() - p,
    {
        let op_lt = matches!(&tokens[p], Token::LT);
        let op_gt = matches!(&tokens[p], Token::GT);
        let op_le = matches!(&tokens[p], Token::LE);
        let (rhs, p2) = match parse_shift_expr(tokens, p + 1) {
            Ok(x) => x,
            Err(e) => {
                return Err(e);
            },
        };
        acc = if op_lt {
            ComparisionExpr::LT(Box::new(acc), rhs)
        } else if op_gt {
            ComparisionExpr::GT(Box::new(acc), rhs)
        } else if op_le {
            ComparisionExpr::LE(Box::new(acc), rhs)
        } else {
            ComparisionExpr::GE(Box::new(acc), rhs)
        };
        p = p2;
    }
    Ok((acc, p))
}

/// Reads an equality expression.
pub fn parse_equality_expr(tokens: &Vec<Token>, pos: usize) -> (r: Result<
    (EqualityExpr, usize),
    ParseError,
>)
    requires
        pos <= tokens@.len(),
    ensures
        r matches Ok(p) ==> pos < p.1 <= tokens@.len(),
    decreases tokens@.len() - pos, 9int,
{
    let (e0, p0) = match parse_comparision_expr(tokens, pos) {
        Ok(x) => x,
        Err(e) => {
            return Err(e);
        },
    };
    let mut acc = EqualityExpr::ComparisionExpr(e0);
    let mut p = p0;
    while p < tokens.len() && (matches!(&tokens[p], Token::EQ) || matches!(
        &tokens[p],
        Token::NE,
    ))
        invariant
            pos < p <= tokens@.len(),
        decreases tokens@.len() - p,
    {
        let op_eq = matches!(&tokens[p], Token::EQ);
        let (rhs, p2) = match parse_comparision_expr(tokens, p + 1) {
            Ok(x) => x,
            Err(e) => {
                return Err(e);
            },
        };
        acc = if op_eq {
            EqualityExpr::EQ(Box::new(acc), rhs)
        } else {
            EqualityExpr::NE(Box::new(acc), rhs)
        };
        p = p2;
    }
    Ok((acc, p))
}

/// Reads a bitwise-and expression.
pub fn parse_bitand_expr(tokens: &Vec<Token>, pos: usize) -> (r: Result<
    (BitAndExpr, usize),
    ParseError,
>)
    requires
        pos <= tokens@.len(),
    ensures
        r matches Ok(p) ==> pos < p.1 <= tokens@.len(),
    decreases tokens@.len() - pos, 10int,
{
    let (e0, p0) = match parse_equality_expr(tokens, pos) {
        Ok(x) => x,
        Err(e) => {
            return Err(e);
        },
    };
    let mut acc = BitAndExpr::EqualityExpr(e0);
    let mut p = p0;
    while p < tokens.len() && matches!(&tokens[p], Token::Ampersand)
        invariant
            pos < p <= tokens@.len(),
        decreases tokens@.len() - p,
    {
        let (rhs, p2) = match parse_equality_expr(tokens, p + 1) {
            Ok(x) => x,
            Err(e) => {
                return Err(e);
            },
        };
        acc = BitAndExpr::BitAnd(Box::new(acc), rhs);
        p = p2;
    }
    Ok((acc, p))
}

/// Reads an exclusive-or expression.
pub fn parse_xor_expr(tokens: &Vec<Token>, pos: usize) -> (r: Result<
    (XORExpr, usize),
    ParseError,
>)
    requires
        pos <= tokens@.len(),
    ensures
        r matches Ok(p) ==> pos < p.1 <= tokens@.len(),
    decreases tokens@.len() - pos, 11int,
{
    let (e0, p0) = match parse_bitand_expr(tokens, pos) {
        Ok(x) => x,
        Err(e) => {
            return Err(e);
        },
    };
    let mut acc = XORExpr::BitAndExpr(e0);
    let mut p = p0;
    while p < tokens.len() && matches!(&tokens[p], Token::Caret)
        invariant
            pos < p <= tokens@.len(),
        decreases tokens@.len() - p,
    {
        let (rhs, p2) = match parse_bitand_expr(tokens, p + 1) {
            Ok(x) => x,
            Err(e) => {
                return Err(e);
            },
        };
        acc = XORExpr::XOR(Box::new(acc), rhs);
        p = p2;
    }
    Ok((acc, p))
}

/// Reads a bitwise-or expression.
pub fn parse_bitor_expr(tokens: &Vec<Token>, pos: usize) -> (r: Result<
    (BitOrExpr, usize),
    ParseError,
>)
    requires
        pos <= tokens@.len(),
    ensures
        r matches Ok(p) ==> pos < p.1 <= tokens@.len(),
    decreases tokens@.len() - pos, 12int,
{
    let (e0, p0) = match parse_xor_expr(tokens, pos) {
        Ok(x) => x,
        Err(e) => {
            return Err(e);
        },
    };
    let mut acc = BitOrExpr::XORExpr(e0);
    let mut p = p0;
    while p < tokens.len() && matches!(&tokens[p], Token::Pipe)
        invariant
            pos < p <= tokens@.len(),
        decreases tokens@.len() - p,
    {
        let (rhs, p2) = match parse_xor_expr(tokens, p + 1) {
            Ok(x) => x,
            Err(e) => {
                return Err(e);
            },
        };
        acc = BitOrExpr::BitOr(Box::new(acc), rhs);
        p = p2;
    }
    Ok((acc, p))
}

/// Reads a logical-and expression.
pub fn parse_logicaland_expr(tokens: &Vec<Token>, pos: usize) -> (r: Result<
    (LogicalAndExpr, usize),
    ParseError,
>)
    requires
        pos <= tokens@.len(),
    ensures
        r matches Ok(p) ==> pos < p.1 <= tokens@.len(),
    decreases tokens@.len() - pos, 13int,
{
    let (e0, p0) = match parse_bitor_expr(tokens, pos) {
        Ok(x) => x,
        Err(e) => {
            return Err(e);
        },
    };
    let mut acc = LogicalAndExpr::BitOrExpr(e0);
    let mut p = p0;
    while p < tokens.len() && matches!(&tokens[p], Token::AmpersandAmpersand)
        invariant
            pos < p <= tokens@.len(),
        decreases tokens@.len() - p,
    {
        let (rhs, p2) = match parse_bitor_expr(tokens, p + 1) {
            Ok(x) => x,
            Err(e) => {
                return Err(e);
            },
        };
        acc = LogicalAndExpr::LogicalAnd(Box::new(acc), rhs);
        p = p2;
    }
    Ok((acc, p))
}

/// Reads a logical-or expression.
pub fn parse_logicalor_expr(tokens: &Vec<Token>, pos: usize) -> (r: Result<
    (LogicalOrExpr, usize),
    ParseError,
>)
    requires
        pos <= tokens@.len(),
    ensures
        r matches Ok(p) ==> pos < p.1 <= tokens@.len(),
    decreases tokens@.len() - pos, 14int,
{
    let (e0, p0) = match parse_logicaland_expr(tokens, pos) {
        Ok(x) => x,
        Err(e) => {
            return Err(e);
        },
    };
    let mut acc = LogicalOrExpr::LogicalAndExpr(e0);
    let mut p = p0;
    while p < tokens.len() && matches!(&tokens[p], Token::PipePipe)
        invariant
            pos < p <= tokens@.len(),
        decreases tokens@.len() - p,
    {
        let (rhs, p2) = match parse_logicaland_expr(tokens, p + 1) {
            Ok(x) => x,
            Err(e) => {
                return Err(e);
            },
        };
        acc = LogicalOrExpr::LogicalOr(Box::new(acc), rhs);
        p = p2;
    }
    Ok((acc, p))
}

/// Reads a conditional expression.
pub fn parse_conditional_expr(tokens: &Vec<Token>, pos: usize) -> (r: Result<
    (ConditionalExpr, usize),
    ParseError,
>)
    requires
        pos <= tokens@.len(),
    ensures
        r matches Ok(p) ==> pos < p.1 <= tokens@.len(),
    decreases tokens@.len() - pos, 15int,
{
    let (test, p) = match parse_logicalor_expr(tokens, pos) {
        Ok(x) => x,
        Err(e) => {
            return Err(e);
        },
    };
    if p < tokens.len() && matches!(&tokens[p], Token::Question) {
        let (pass, p2) = match parse_assignment_expr(tokens, p + 1) {
            Ok(x) => x,
            Err(e) => {
                return Err(e);
            },
        };
        if p2 < tokens.len() && matches!(&tokens[p2], Token::Colon) {
            let (fail, p3) = match parse_conditional_expr(tokens, p2 + 1) {
                Ok(x) => x,
                Err(e) => {
                    return Err(e);
                },
            };
            Ok((ConditionalExpr::Ternary { test, pass: Box::new(pass), fail: Box::new(fail) }, p3))
        } else {
            Err(ParseError::Expected(Token::Colon, p2))
        }
    } else {
        Ok((ConditionalExpr::LogicalOrExpr(test), p))
    }
}

/// Reads an assignment expression: a unary expression followed by an
/// assignment operator and another assignment expression, or a
/// conditional expression.
pub fn parse_assignment_expr(tokens: &Vec<Token>, pos: usize) -> (r: Result<
    (AssignmentExpr, usize),
    ParseError,
>)
    requires
        pos <= tokens@.len(),
    ensures
        r matches Ok(p) ==> pos < p.1 <= tokens@.len(),
    decreases tokens@.len() - pos, 16int,
{
    match parse_unary_expr(tokens, pos) {
        Ok((lhs, p)) => {
            if p < tokens.len() {
                let is_assign = match &tokens[p] {
                    Token::Equals | Token::AsteriskEquals | Token::SlashEquals
                        | Token::PercentEquals | Token::PlusEquals | Token::HyphenEquals
                        | Token::LTLTEquals | Token::GTGTEquals | Token::AmpersandEquals
                        | Token::CaretEquals | Token::PipeEquals => true,
                    _ => false,
                };
                if is_assign {
                    let (rhs, p2) = match parse_assignment_expr(tokens, p + 1) {
                        Ok(x) => x,
                        Err(e) => {
                            return Err(e);
                        },
                    };
                    let node = match &tokens[p] {
                        Token::Equals => AssignmentExpr::Assign(lhs, Box::new(rhs)),
                        Token::AsteriskEquals => AssignmentExpr::MulAssign(lhs, Box::new(rhs)),
                        Token::SlashEquals => AssignmentExpr::DivAssign(lhs, Box::new(rhs)),
                        Token::PercentEquals => AssignmentExpr::ModAssign(lhs, Box::new(rhs)),
                        Token::PlusEquals => AssignmentExpr::AddAssign(lhs, Box::new(rhs)),
                        Token::HyphenEquals => AssignmentExpr::SubAssign(lhs, Box::new(rhs)),
                        Token::LTLTEquals => AssignmentExpr::ShiftLeftAssign(
                            lhs,
                            Box::new(rhs),
                        ),
                        Token::GTGTEquals => AssignmentExpr::ShiftRightAssign(
                            lhs,
                            Box::new(rhs),
                        ),
                        Token::AmpersandEquals => AssignmentExpr::BitAndAssign(
                            lhs,
                            Box::new(rhs),
                        ),
                        Token::CaretEquals => AssignmentExpr::XORAssign(lhs, Box::new(rhs)),
                        _ => AssignmentExpr::BitOrAssign(lhs, Box::new(rhs)),
                    };
                    return Ok((node, p2));
                }
            }
            let (e, p2) = match parse_conditional_expr(tokens, pos) {
                Ok(x) => x,
                Err(e) => {
                    return Err(e);
                },
            };
            Ok((AssignmentExpr::ConditionalExpr(e), p2))
        },
        Err(_) => {
            let (e, p2) = match parse_conditional_expr(tokens, pos) {
                Ok(x) => x,
                Err(e) => {
                    return Err(e);
                },
            };
            Ok((AssignmentExpr::ConditionalExpr(e), p2))
        },
    }
}


/// Reads a declarator: pointer markers, a name, and an optional array
/// size.
fn parse_declarator(tokens: &Vec<Token>, pos: usize) -> (r: Result<
    (Declarator, usize),
    ParseError,
>)
    requires
        pos <= tokens@.len(),
    ensures
        r matches Ok(p) ==> pos < p.1 <= tokens@.len(),
    decreases tokens@.len() - pos,
{
    let mut levels: usize = 0;
    let mut p = pos;
    while p < tokens.len() && matches!(&tokens[p], Token::Asterisk) && levels < usize::MAX
        invariant
            pos <= p <= tokens@.len(),
            p - pos >= levels,
        decreases tokens@.len() - p,
    {
        levels += 1;
        p += 1;
    }
    if p >= tokens.len() {
        return Err(ParseError::SyntaxError(p));
    }
    let name = match &tokens[p] {
        Token::Ident(n) => n.clone(),
        _ => {
            return Err(ParseError::SyntaxError(p));
        },
    };
    let mut dd = DirectDeclarator::Ident(name);
    let mut q = p + 1;
    if q < tokens.len() && matches!(&tokens[q], Token::LSquare) && tokens.len() - q >= 3 {
        let v = match &tokens[q + 1] {
            Token::Whole(v) => Some(*v),
            _ => None,
        };
        if v.is_some() && matches!(&tokens[q + 2], Token::RSquare) {
            let vv = match v {
                Some(x) => x,
                None => 0,
            };
            if vv <= usize::MAX as u64 {
                dd = DirectDeclarator::Array(Box::new(dd), vv as usize);
                q += 3;
            }
        }
    } else if q < tokens.len() && matches!(&tokens[q], Token::LParen) {
        let mut params: Vec<ParameterDeclaration> = Vec::new();
        let mut q2 = q + 1;
        if q2 < tokens.len() && matches!(&tokens[q2], Token::RParen) {
            dd = DirectDeclarator::Function(Box::new(dd), params);
            q = q2 + 1;
        } else {
            let (p0, q3) = match parse_parameter(tokens, q2) {
                Ok(x) => x,
                Err(e) => {
                    return Err(e);
                },
            };
            params.push(p0);
            q2 = q3;
            while q2 < tokens.len() && matches!(&tokens[q2], Token::Comma)
                invariant
                    q < q2 <= tokens@.len(),
                    pos < q,
                    q < tokens@.len(),
                decreases tokens@.len() - q2,
            {
                let (pp, q4) = match parse_parameter(tokens, q2 + 1) {
                    Ok(x) => x,
                    Err(e) => {
                        return Err(e);
                    },
                };
                params.push(pp);
                q2 = q4;
            }
            if q2 < tokens.len() && matches!(&tokens[q2], Token::RParen) {
                dd = DirectDeclarator::Function(Box::new(dd), params);
                q = q2 + 1;
            } else {
                return Err(ParseError::Expected(Token::RParen, q2));
            }
        }
    }
    let pointer = if levels > 0 {
        Some(Pointer { levels })
    } else {
        None
    };
    Ok((Declarator { pointer, d_declarator: dd }, q))
}

/// Reads one parameter declaration: specifier keywords and a declarator.
fn parse_parameter(tokens: &Vec<Token>, pos: usize) -> (r: Result<
    (ParameterDeclaration, usize),
    ParseError,
>)
    requires
        pos <= tokens@.len(),
    ensures
        r matches Ok(p) ==> pos < p.1 <= tokens@.len(),
    decreases tokens@.len() - pos,
{
    if pos >= tokens.len() || !starts_type(&tokens[pos]) {
        return Err(ParseError::SyntaxError(pos));
    }
    let mut dss: Vec<DeclarationSpecifier> = Vec::new();
    let mut p = pos;
    while p < tokens.len() && starts_type(&tokens[p])
        invariant
            pos <= p <= tokens@.len(),
        decreases tokens@.len() - p,
    {
        let (sq, p2) = match parse_specifier_qualifier(tokens, p) {
            Ok(x) => x,
            Err(e) => {
                return Err(e);
            },
        };
        let ds = match sq {
            SpecifierQualifier::TypeSpecifier(t) => DeclarationSpecifier::TypeSpecifier(t),
            SpecifierQualifier::TypeQualifier(tq) => DeclarationSpecifier::TypeQualifier(tq),
        };
        dss.push(ds);
        p = p2;
    }
    if p <= pos {
        return Err(ParseError::SyntaxError(pos));
    }
    let (d, q) = match parse_declarator(tokens, p) {
        Ok(x) => x,
        Err(e) => {
            return Err(e);
        },
    };
    Ok((ParameterDeclaration { declaration_specifiers: dss, declarator: d }, q))
}

/// Reads a declaration: type-specifier keywords, then init declarators
/// separated by commas, then a semicolon.
pub fn parse_declaration(tokens: &Vec<Token>, pos: usize) -> (r: Result<
    (Declaration, usize),
    ParseError,
>)
    requires
        pos <= tokens@.len(),
    ensures
        r matches Ok(p) ==> pos < p.1 <= tokens@.len(),
{
    if pos >= tokens.len() || !starts_type(&tokens[pos]) {
        return Err(ParseError::SyntaxError(pos));
    }
    let mut dss: Vec<DeclarationSpecifier> = Vec::new();
    let mut p = pos;
    while p < tokens.len() && starts_type(&tokens[p])
        invariant
            pos <= p <= tokens@.len(),
        decreases tokens@.len() - p,
    {
        let (sq, p2) = match parse_specifier_qualifier(tokens, p) {
            Ok(x) => x,
            Err(e) => {
                return Err(e);
            },
        };
        let ds = match sq {
            SpecifierQualifier::TypeSpecifier(t) => DeclarationSpecifier::TypeSpecifier(t),
            SpecifierQualifier::TypeQualifier(q) => DeclarationSpecifier::TypeQualifier(q),
        };
        dss.push(ds);
        p = p2;
    }
    if p <= pos {
        return Err(ParseError::SyntaxError(pos));
    }
    let mut ids: Vec<InitDeclarator> = Vec::new();
    let (d0, mut q) = match parse_init_declarator(tokens, p) {
        Ok(x) => x,
        Err(e) => {
            return Err(e);
        },
    };
    ids.push(d0);
    while q < tokens.len() && matches!(&tokens[q], Token::Comma)
        invariant
            pos < q <= tokens@.len(),
        decreases tokens@.len() - q,
    {
        let (d, q2) = match parse_init_declarator(tokens, q + 1) {
            Ok(x) => x,
            Err(e) => {
                return Err(e);
            },
        };
        ids.push(d);
        q = q2;
    }
    if q < tokens.len() && matches!(&tokens[q], Token::SemiColon) {
        Ok((Declaration { declaration_specifiers: dss, init_declarators: ids }, q + 1))
    } else {
        Err(ParseError::Expected(Token::SemiColon, q))
    }
}

/// Reads one init declarator: a declarator with an optional `=` and an
/// initializer expression.
fn parse_init_declarator(tokens: &Vec<Token>, pos: usize) -> (r: Result<
    (InitDeclarator, usize),
    ParseError,
>)
    requires
        pos <= tokens@.len(),
    ensures
        r matches Ok(p) ==> pos < p.1 <= tokens@.len(),
{
    let (d, p) = match parse_declarator(tokens, pos) {
        Ok(x) => x,
        Err(e) => {
            return Err(e);
        },
    };
    if p < tokens.len() && matches!(&tokens[p], Token::Equals) {
        let (e, p2) = match parse_assignment_expr(tokens, p + 1) {
            Ok(x) => x,
            Err(er) => {
                return Err(er);
            },
        };
        Ok((InitDeclarator::Initialized(d, Initializer::Assignment(e)), p2))
    } else {
        Ok((InitDeclarator::Declared(d), p))
    }
}

/// Reads a labeled statement: a goto label, a `case`, or a `default`.
pub fn parse_labeled_stmt(tokens: &Vec<Token>, pos: usize) -> (r: Result<
    (LabeledStmt, usize),
    ParseError,
>)
    requires
        pos <= tokens@.len(),
    ensures
        r matches Ok(p) ==> pos < p.1 <= tokens@.len(),
        r matches Ok(p) ==> pos < tokens@.len() && (tokens@[pos as int] is Ident
            || tokens@[pos as int] is KwCase || tokens@[pos as int] is KwDefault),
    decreases tokens@.len() - pos, 4int,
{
    if pos >= tokens.len() {
        return Err(ParseError::SyntaxError(pos));
    }
    match &tokens[pos] {
        Token::Ident(n) => {
            if pos + 1 < tokens.len() && matches!(&tokens[pos + 1], Token::Colon) {
                let (inner, p) = match parse_stmt_at(tokens, pos + 2) {
                    Ok(x) => x,
                    Err(e) => {
                        return Err(e);
                    },
                };
                Ok((LabeledStmt::Ident(n.clone(), Box::new(inner)), p))
            } else {
                Err(ParseError::SyntaxError(pos))
            }
        },
        Token::KwCase => {
            let (e, p) = match parse_conditional_expr(tokens, pos + 1) {
                Ok(x) => x,
                Err(er) => {
                    return Err(er);
                },
            };
            if p < tokens.len() && matches!(&tokens[p], Token::Colon) {
                let (inner, p2) = match parse_stmt_at(tokens, p + 1) {
                    Ok(x) => x,
                    Err(er) => {
                        return Err(er);
                    },
                };
                Ok((LabeledStmt::Case(e, Box::new(inner)), p2))
            } else {
                Err(ParseError::Expected(Token::Colon, p))
            }
        },
        Token::KwDefault => {
            if pos + 1 < tokens.len() && matches!(&tokens[pos + 1], Token::Colon) {
                let (inner, p) = match parse_stmt_at(tokens, pos + 2) {
                    Ok(x) => x,
                    Err(e) => {
                        return Err(e);
                    },
                };
                Ok((LabeledStmt::Default(Box::new(inner)), p))
            } else {
                Err(ParseError::Expected(Token::Colon, pos + 1))
            }
        },
        _ => Err(ParseError::SyntaxError(pos)),
    }
}

/// Reads a brace-enclosed block of declarations and statements.
pub fn parse_compound_stmt(tokens: &Vec<Token>, pos: usize) -> (r: Result<
    (CompoundStmt, usize),
    ParseError,
>)
    requires
        pos <= tokens@.len(),
    ensures
        r matches Ok(p) ==> pos < p.1 <= tokens@.len(),
        r matches Ok(p) ==> tokens@[pos as int] is LCurly,
        pos + 1 < tokens@.len() && tokens@[pos as int] is LCurly && tokens@[pos + 1] is RCurly
            ==> (r matches Ok(p) && p.0.0@.len() == 0 && p.1 == pos + 2),
    decreases tokens@.len() - pos, 4int,
{
    if pos >= tokens.len() || !matches!(&tokens[pos], Token::LCurly) {
        return Err(ParseError::Expected(Token::LCurly, pos));
    }
    let mut items: Vec<BlockItem> = Vec::new();
    let mut p = pos + 1;
    while p < tokens.len() && !matches!(&tokens[p], Token::RCurly)
        invariant
            pos < p <= tokens@.len(),
            pos + 1 < tokens@.len() && tokens@[pos + 1] is RCurly ==> p == pos + 1
                && items@.len() == 0,
        decreases tokens@.len() - p,
    {
        match parse_declaration(tokens, p) {
            Ok((d, p2)) => {
                items.push(BlockItem::Declaration(d));
                p = p2;
            },
            Err(_) => {
                let (s, p2) = match parse_stmt_at(tokens, p) {
                    Ok(x) => x,
                    Err(e) => {
                        return Err(e);
                    },
                };
                items.push(BlockItem::Statement(s));
                p = p2;
            },
        }
    }
    if p < tokens.len() && matches!(&tokens[p], Token::RCurly) {
        Ok((CompoundStmt(items), p + 1))
    } else {
        Err(ParseError::Expected(Token::RCurly, p))
    }
}

/// Reads `if`, `if`/`else` or `switch`.
pub fn parse_selection_stmt(tokens: &Vec<Token>, pos: usize) -> (r: Result<
    (SelectionStmt, usize),
    ParseError,
>)
    requires
        pos <= tokens@.len(),
    ensures
        r matches Ok(p) ==> pos < p.1 <= tokens@.len(),
    decreases tokens@.len() - pos, 4int,
{
    if pos >= tokens.len() {
        return Err(ParseError::SyntaxError(pos));
    }
    let is_if = matches!(&tokens[pos], Token::KwIf);
    let is_switch = matches!(&tokens[pos], Token::KwSwitch);
    if !is_if && !is_switch {
        return Err(ParseError::SyntaxError(pos));
    }
    if !(pos + 1 < tokens.len() && matches!(&tokens[pos + 1], Token::LParen)) {
        return Err(ParseError::Expected(Token::LParen, pos + 1));
    }
    let (test, p) = match parse_assignment_expr(tokens, pos + 2) {
        Ok(x) => x,
        Err(e) => {
            return Err(e);
        },
    };
    if !(p < tokens.len() && matches!(&tokens[p], Token::RParen)) {
        return Err(ParseError::Expected(Token::RParen, p));
    }
    let (body, p2) = match parse_stmt_at(tokens, p + 1) {
        Ok(x) => x,
        Err(e) => {
            return Err(e);
        },
    };
    if is_switch {
        return Ok((SelectionStmt::Switch { test, pass: Box::new(body) }, p2));
    }
    if p2 < tokens.len() && matches!(&tokens[p2], Token::KwElse) {
        let (fb, p3) = match parse_stmt_at(tokens, p2 + 1) {
            Ok(x) => x,
            Err(e) => {
                return Err(e);
            },
        };
        Ok((SelectionStmt::IfElse { test, pass: Box::new(body), fail: Box::new(fb) }, p3))
    } else {
        Ok((SelectionStmt::If { test, pass: Box::new(body) }, p2))
    }
}

/// Reads `while`, `do`/`while` or `for`.
pub fn parse_iteration_stmt(tokens: &Vec<Token>, pos: usize) -> (r: Result<
    (IterationStmt, usize),
    ParseError,
>)
    requires
        pos <= tokens@.len(),
    ensures
        r matches Ok(p) ==> pos < p.1 <= tokens@.len(),
    decreases tokens@.len() - pos, 4int,
{
    if pos >= tokens.len() {
        return Err(ParseError::SyntaxError(pos));
    }
    match &tokens[pos] {
        Token::KwWhile => {
            if !(pos + 1 < tokens.len() && matches!(&tokens[pos + 1], Token::LParen)) {
                return Err(ParseError::Expected(Token::LParen, pos + 1));
            }
            let (test, p) = match parse_assignment_expr(tokens, pos + 2) {
                Ok(x) => x,
                Err(e) => {
                    return Err(e);
                },
            };
            if !(p < tokens.len() && matches!(&tokens[p], Token::RParen)) {
                return Err(ParseError::Expected(Token::RParen, p));
            }
            let (body, p2) = match parse_stmt_at(tokens, p + 1) {
                Ok(x) => x,
                Err(e) => {
                    return Err(e);
                },
            };
            Ok((IterationStmt::While { test, body: Box::new(body) }, p2))
        },
        Token::KwDo => {
            let (body, p) = match parse_stmt_at(tokens, pos + 1) {
                Ok(x) => x,
                Err(e) => {
                    return Err(e);
                },
            };
            if !(p < tokens.len() && matches!(&tokens[p], Token::KwWhile)) {
                return Err(ParseError::SyntaxError(p));
            }
            if !(p + 1 < tokens.len() && matches!(&tokens[p + 1], Token::LParen)) {
                return Err(ParseError::Expected(Token::LParen, p + 1));
            }
            let (test, p2) = match parse_assignment_expr(tokens, p + 2) {
                Ok(x) => x,
                Err(e) => {
                    return Err(e);
                },
            };
            if !(p2 < tokens.len() && matches!(&tokens[p2], Token::RParen)) {
                return Err(ParseError::Expected(Token::RParen, p2));
            }
            if !(p2 + 1 < tokens.len() && matches!(&tokens[p2 + 1], Token::SemiColon)) {
                return Err(ParseError::Expected(Token::SemiColon, p2 + 1));
            }
            Ok((IterationStmt::DoWhile { test, body: Box::new(body) }, p2 + 2))
        },
        Token::KwFor => {
            if !(pos + 1 < tokens.len() && matches!(&tokens[pos + 1], Token::LParen)) {
                return Err(ParseError::Expected(Token::LParen, pos + 1));
            }
            let mut p = pos + 2;
            let mut init: Option<AssignmentExpr> = None;
            if p < tokens.len() && matches!(&tokens[p], Token::SemiColon) {
                p += 1;
            } else {
                let (e, p2) = match parse_assignment_expr(tokens, p) {
                    Ok(x) => x,
                    Err(er) => {
                        return Err(er);
                    },
                };
                if !(p2 < tokens.len() && matches!(&tokens[p2], Token::SemiColon)) {
                    return Err(ParseError::Expected(Token::SemiColon, p2));
                }
                init = Some(e);
                p = p2 + 1;
            }
            let mut test: Option<AssignmentExpr> = None;
            if p < tokens.len() && matches!(&tokens[p], Token::SemiColon) {
                p += 1;
            } else {
                let (e, p2) = match parse_assignment_expr(tokens, p) {
                    Ok(x) => x,
                    Err(er) => {
                        return Err(er);
                    },
                };
                if !(p2 < tokens.len() && matches!(&tokens[p2], Token::SemiColon)) {
                    return Err(ParseError::Expected(Token::SemiColon, p2));
                }
                test = Some(e);
                p = p2 + 1;
            }
            let mut update: Option<AssignmentExpr> = None;
            if p < tokens.len() && matches!(&tokens[p], Token::RParen) {
                p += 1;
            } else {
                let (e, p2) = match parse_assignment_expr(tokens, p) {
                    Ok(x) => x,
                    Err(er) => {
                        return Err(er);
                    },
                };
                if !(p2 < tokens.len() && matches!(&tokens[p2], Token::RParen)) {
                    return Err(ParseError::Expected(Token::RParen, p2));
                }
                update = Some(e);
                p = p2 + 1;
            }
            let (body, p3) = match parse_stmt_at(tokens, p) {
                Ok(x) => x,
                Err(e) => {
                    return Err(e);
                },
            };
            Ok((IterationStmt::For { init, test, update, body: Box::new(body) }, p3))
        },
        _ => Err(ParseError::SyntaxError(pos)),
    }
}

/// Reads `goto`, `continue`, `break` or `return`.
pub fn parse_jump_stmt(tokens: &Vec<Token>, pos: usize) -> (r: Result<
    (JumpStmt, usize),
    ParseError,
>)
    requires
        pos <= tokens@.len(),
    ensures
        r matches Ok(p) ==> pos < p.1 <= tokens@.len(),
    decreases tokens@.len() - pos, 4int,
{
    if pos >= tokens.len() {
        return Err(ParseError::SyntaxError(pos));
    }
    match &tokens[pos] {
        Token::KwGoto => {
            if pos + 1 < tokens.len() {
                match &tokens[pos + 1] {
                    Token::Ident(n) => {
                        if pos + 2 < tokens.len() && matches!(
                            &tokens[pos + 2],
                            Token::SemiColon,
                        ) {
                            Ok((JumpStmt::Goto(n.clone()), pos + 3))
                        } else {
                            Err(ParseError::Expected(Token::SemiColon, pos + 2))
                        }
                    },
                    _ => Err(ParseError::SyntaxError(pos + 1)),
                }
            } else {
                Err(ParseError::SyntaxError(pos))
            }
        },
        Token::KwContinue => {
            if pos + 1 < tokens.len() && matches!(&tokens[pos + 1], Token::SemiColon) {
                Ok((JumpStmt::Continue, pos + 2))
            } else {
                Err(ParseError::Expected(Token::SemiColon, pos + 1))
            }
        },
        Token::KwBreak => {
            if pos + 1 < tokens.len() && matches!(&tokens[pos + 1], Token::SemiColon) {
                Ok((JumpStmt::Break, pos + 2))
            } else {
                Err(ParseError::Expected(Token::SemiColon, pos + 1))
            }
        },
        Token::KwReturn => {
            if pos + 1 < tokens.len() && matches!(&tokens[pos + 1], Token::SemiColon) {
                Ok((JumpStmt::Return(None), pos + 2))
            } else {
                let (e, p) = match parse_assignment_expr(tokens, pos + 1) {
                    Ok(x) => x,
                    Err(er) => {
                        return Err(er);
                    },
                };
                if p < tokens.len() && matches!(&tokens[p], Token::SemiColon) {
                    Ok((JumpStmt::Return(Some(e)), p + 1))
                } else {
                    Err(ParseError::Expected(Token::SemiColon, p))
                }
            }
        },
        _ => Err(ParseError::SyntaxError(pos)),
    }
}

/// Reads one statement, trying each statement form in order.
fn parse_stmt_at(tokens: &Vec<Token>, pos: usize) -> (r: Result<(Stmt, usize), ParseError>)
    requires
        pos <= tokens@.len(),
    ensures
        r matches Ok(p) ==> pos < p.1 <= tokens@.len(),
        pos < tokens@.len() && tokens@[pos as int] is SemiColon ==> (r matches Ok(p)
            && p.0 is EmptyStmt && p.1 == pos + 1),
        pos + 1 < tokens@.len() && tokens@[pos as int] is LCurly && tokens@[pos + 1] is RCurly
            ==> (r matches Ok(p) && (p.0 matches Stmt::Compound(c) && c.0@.len() == 0)
            && p.1 == pos + 2),
    decreases tokens@.len() - pos, 5int,
{
    match parse_labeled_stmt(tokens, pos) {
        Ok((ls, p)) => {
            return Ok((Stmt::Labeled(ls), p));
        },
        Err(_) => {},
    }
    if pos < tokens.len() && matches!(&tokens[pos], Token::SemiColon) {
        return Ok((Stmt::EmptyStmt, pos + 1));
    }
    match parse_compound_stmt(tokens, pos) {
        Ok((c, p)) => {
            return Ok((Stmt::Compound(c), p));
        },
        Err(_) => {},
    }
    match parse_selection_stmt(tokens, pos) {
        Ok((sel, p)) => {
            return Ok((Stmt::Selection(sel), p));
        },
        Err(_) => {},
    }
    match parse_iteration_stmt(tokens, pos) {
        Ok((it, p)) => {
            return Ok((Stmt::Iteration(it), p));
        },
        Err(_) => {},
    }
    match parse_jump_stmt(tokens, pos) {
        Ok((j, p)) => {
            return Ok((Stmt::Jump(j), p));
        },
        Err(_) => {},
    }
    match parse_expr_stmt(tokens, pos) {
        Ok(sp) => Ok(sp),
        Err(_) => Err(ParseError::SyntaxError(pos)),
    }
}

/// Reads an empty statement: a lone semicolon.
pub fn parse_empty_stmt(tokens: &Vec<Token>, pos: usize, _ctx: &mut ParseContext) -> (r: Result<
    (Stmt, usize),
    ParseError,
>)
    requires
        pos <= tokens@.len(),
    ensures
        r matches Ok(p) ==> pos < p.1 <= tokens@.len(),
{
    if pos < tokens.len() && matches!(&tokens[pos], Token::SemiColon) {
        Ok((Stmt::EmptyStmt, pos + 1))
    } else {
        Err(ParseError::Expected(Token::SemiColon, pos))
    }
}

/// Reads an expression statement: an expression and its semicolon.
fn parse_expr_stmt(tokens: &Vec<Token>, pos: usize) -> (r: Result<(Stmt, usize), ParseError>)
    requires
        pos <= tokens@.len(),
    ensures
        r matches Ok(p) ==> pos < p.1 <= tokens@.len(),
    decreases tokens@.len() - pos, 4int,
{
    let (e, p) = match parse_assignment_expr(tokens, pos) {
        Ok(x) => x,
        Err(er) => {
            return Err(er);
        },
    };
    if p < tokens.len() && matches!(&tokens[p], Token::SemiColon) {
        Ok((Stmt::Expr(e), p + 1))
    } else {
        Err(ParseError::Expected(Token::SemiColon, p))
    }
}

/// Reads one statement; the entry point of the statement grammar.
pub fn parse_stmt(tokens: &Vec<Token>, pos: usize, _ctx: &mut ParseContext) -> (r: Result<
    (Stmt, usize),
    ParseError,
>)
    requires
        pos <= tokens@.len(),
    ensures
        r matches Ok(p) ==> pos < p.1 <= tokens@.len(),
        pos < tokens@.len() && tokens@[pos as int] is SemiColon ==> (r matches Ok(p)
            && p.0 is EmptyStmt && p.1 == pos + 1),
        pos + 1 < tokens@.len() && tokens@[pos as int] is LCurly && tokens@[pos + 1] is RCurly
            ==> (r matches Ok(p) && (p.0 matches Stmt::Compound(c) && c.0@.len() == 0)
            && p.1 == pos + 2),
{
    parse_stmt_at(tokens, pos)
}

} // verus!
