//! The parser: tokens to the untyped tree, by recursive descent with
//! operator-precedence expression parsing.
//!
//! The grammar and the precedence table are stated by the `spec_parse_*`
//! functions, and every parsing function is proved equal to its model.
//! Positions that a model cannot reach (a sub-parse standing still) are
//! fenced with an internal error so the models stay well founded; the
//! parsing functions' progress contracts show those fences are never hit.

use crate::ast::{
    lemma_untyped_exp_views, untyped_exp_views, Block, BlockItem, BlockItemV, BlockV, Declaration,
    DeclarationV, ForInit, ForInitV, FunctionDeclaration, FunctionDeclarationV, ProgType,
    ProgTypeV, Statement, StatementV, StorageClass, UnTypedExp, UnTypedExpV, UntypedProgType,
    VariableDeclaration, VariableDeclarationV,
};
use crate::constants;
use crate::errors::{CompileError, CompileErrorV};
use crate::tokens;
use crate::tokens::{lemma_token_views, token_eq, token_views, TokenV};
use crate::types::{type_view, type_views, Type, TypeV};
use vstd::prelude::*;

verus! {

/// The tokens left from position `i`, clipped at zero.
pub open spec fn rem(s: Seq<TokenV>, i: int) -> int {
    if 0 <= i <= s.len() {
        s.len() - i
    } else {
        0
    }
}

/// The token at position `i`; past the end, the end-of-file marker.
pub open spec fn spec_current(s: Seq<TokenV>, i: int) -> TokenV {
    if 0 <= i < s.len() {
        s[i]
    } else {
        TokenV::Eof
    }
}

/// The position after consuming `expected` at `i`, or the token found.
pub open spec fn spec_eat(s: Seq<TokenV>, i: int, expected: TokenV) -> Result<
    int,
    CompileErrorV,
> {
    if spec_current(s, i) == expected && 0 <= i < s.len() {
        Ok(i + 1)
    } else {
        Err(CompileErrorV::UnexpectedToken(spec_current(s, i)))
    }
}

/// An identifier at `i`, consumed.
pub open spec fn spec_parse_id(s: Seq<TokenV>, i: int) -> Result<(Seq<char>, int), CompileErrorV> {
    match spec_current(s, i) {
        TokenV::Identifier(x) => if 0 <= i < s.len() {
            Ok((x, i + 1))
        } else {
            Err(CompileErrorV::UnexpectedToken(TokenV::Identifier(x)))
        },
        other => Err(CompileErrorV::UnexpectedToken(other)),
    }
}

/// A constant at `i`, consumed.
pub open spec fn spec_parse_constant(s: Seq<TokenV>, i: int) -> Result<
    (UnTypedExpV, int),
    CompileErrorV,
> {
    match spec_current(s, i) {
        TokenV::ConstInt(c) => if 0 <= i < s.len() {
            Ok((UnTypedExpV::Constant(constants::T::ConstInt(c)), i + 1))
        } else {
            Err(CompileErrorV::UnexpectedToken(spec_current(s, i)))
        },
        TokenV::ConstLong(c) => if 0 <= i < s.len() {
            Ok((UnTypedExpV::Constant(constants::T::ConstLong(c)), i + 1))
        } else {
            Err(CompileErrorV::UnexpectedToken(spec_current(s, i)))
        },
        other => Err(CompileErrorV::UnexpectedToken(other)),
    }
}

/// The binding power of a binary-expression token: `* / %` at 50, `+ -`
/// at 45, the orderings at 35, the equalities at 30, `&&` at 10, `||` at
/// 5, `?:` at 3, `=` at 1.
pub open spec fn spec_precedence(t: TokenV) -> Option<u8> {
    match t {
        TokenV::Star | TokenV::Slash | TokenV::Percent => Some(50u8),
        TokenV::Plus | TokenV::Hyphen => Some(45u8),
        TokenV::LessThan | TokenV::LessOrEqual | TokenV::GreaterThan | TokenV::GreaterOrEqual => Some(
            35u8,
        ),
        TokenV::DoubleEqual | TokenV::NotEqual => Some(30u8),
        TokenV::LogicalAnd => Some(10u8),
        TokenV::LogicalOr => Some(5u8),
        TokenV::QuestionMark => Some(3u8),
        TokenV::EqualSign => Some(1u8),
        _ => None,
    }
}

/// The source binary operator of an operator token.
pub open spec fn spec_binop_of(t: TokenV) -> Result<crate::ast::BinaryOperator, CompileErrorV> {
    match t {
        TokenV::Plus => Ok(crate::ast::BinaryOperator::Add),
        TokenV::Hyphen => Ok(crate::ast::BinaryOperator::Subtract),
        TokenV::Star => Ok(crate::ast::BinaryOperator::Multiply),
        TokenV::Slash => Ok(crate::ast::BinaryOperator::Divide),
        TokenV::Percent => Ok(crate::ast::BinaryOperator::Mod),
        TokenV::LogicalAnd => Ok(crate::ast::BinaryOperator::And),
        TokenV::LogicalOr => Ok(crate::ast::BinaryOperator::Or),
        TokenV::DoubleEqual => Ok(crate::ast::BinaryOperator::Equal),
        TokenV::NotEqual => Ok(crate::ast::BinaryOperator::NotEqual),
        TokenV::LessThan => Ok(crate::ast::BinaryOperator::LessThan),
        TokenV::LessOrEqual => Ok(crate::ast::BinaryOperator::LessOrEqual),
        TokenV::GreaterThan => Ok(crate::ast::BinaryOperator::GreaterThan),
        TokenV::GreaterOrEqual => Ok(crate::ast::BinaryOperator::GreaterOrEqual),
        other => Err(CompileErrorV::UnexpectedToken(other)),
    }
}

/// A factor: a constant, a name or a call of one, a unary application,
/// a cast, or a parenthesised expression.
pub open spec fn spec_parse_factor(s: Seq<TokenV>, i: int) -> Result<
    (UnTypedExpV, int),
    CompileErrorV,
>
    decreases rem(s, i), 1int,
{
    match spec_current(s, i) {
        TokenV::ConstInt(_) | TokenV::ConstLong(_) => spec_parse_constant(s, i),
        TokenV::Identifier(_) => {
            match spec_parse_id(s, i) {
                Err(e) => Err(e),
                Ok((id, j)) => {
                    if spec_current(s, j) is OpenParen {
                        if 0 <= i && i < j <= s.len() {
                            match spec_parse_optional_arg_list(s, j) {
                                Err(e) => Err(e),
                                Ok((args, k)) => Ok((UnTypedExpV::FunCall { f: id, args }, k)),
                            }
                        } else {
                            Err(CompileErrorV::Internal)
                        }
                    } else {
                        Ok((UnTypedExpV::Var(id), j))
                    }
                },
            }
        },
        TokenV::Hyphen => {
            match spec_parse_factor_after(s, i + 1, i) {
                Err(e) => Err(e),
                Ok((inner, j)) => Ok(
                    (UnTypedExpV::Unary(crate::ast::UnaryOperator::Negate, Box::new(inner)), j),
                ),
            }
        },
        TokenV::Tilde => {
            match spec_parse_factor_after(s, i + 1, i) {
                Err(e) => Err(e),
                Ok((inner, j)) => Ok(
                    (
                        UnTypedExpV::Unary(crate::ast::UnaryOperator::Complement, Box::new(inner)),
                        j,
                    ),
                ),
            }
        },
        TokenV::Bang => {
            match spec_parse_factor_after(s, i + 1, i) {
                Err(e) => Err(e),
                Ok((inner, j)) => Ok(
                    (UnTypedExpV::Unary(crate::ast::UnaryOperator::Not, Box::new(inner)), j),
                ),
            }
        },
        TokenV::OpenParen => {
            let j = i + 1;
            if spec_current(s, j) is KWInt || spec_current(s, j) is KWLong {
                let (specifiers, k) = spec_parse_type_specifier_list(s, j);
                match spec_parse_type(specifiers) {
                    Err(e) => Err(e),
                    Ok(target_type) => match spec_eat(s, k, TokenV::CloseParen) {
                        Err(e) => Err(e),
                        Ok(m) => {
                            match spec_parse_factor_after(s, m, i) {
                                Err(e) => Err(e),
                                Ok((inner, n)) => Ok(
                                    (
                                        UnTypedExpV::Cast { target_type, e: Box::new(inner) },
                                        n,
                                    ),
                                ),
                            }
                        },
                    },
                }
            } else {
                match spec_parse_expression(s, j, 0) {
                    Err(e) => Err(e),
                    Ok((e1, k)) => match spec_eat(s, k, TokenV::CloseParen) {
                        Err(e) => Err(e),
                        Ok(m) => Ok((e1, m)),
                    },
                }
            }
        },
        other => Err(CompileErrorV::UnexpectedToken(other)),
    }
}

/// A factor parsed strictly past `anchor`, keeping the recursion well
/// founded.
pub open spec fn spec_parse_factor_after(s: Seq<TokenV>, j: int, anchor: int) -> Result<
    (UnTypedExpV, int),
    CompileErrorV,
>
    decreases rem(s, anchor), 0int,
{
    if 0 <= anchor && anchor < j <= s.len() {
        spec_parse_factor(s, j)
    } else {
        Err(CompileErrorV::Internal)
    }
}

/// The parenthesised argument list of a call.
pub open spec fn spec_parse_optional_arg_list(s: Seq<TokenV>, i: int) -> Result<
    (Seq<UnTypedExpV>, int),
    CompileErrorV,
>
    decreases rem(s, i), 1int,
{
    match spec_eat(s, i, TokenV::OpenParen) {
        Err(e) => Err(e),
        Ok(j) => {
            if spec_current(s, j) is CloseParen {
                match spec_eat(s, j, TokenV::CloseParen) {
                    Err(e) => Err(e),
                    Ok(k) => Ok((Seq::empty(), k)),
                }
            } else {
                match spec_parse_arg_list(s, j) {
                    Err(e) => Err(e),
                    Ok((args, k)) => match spec_eat(s, k, TokenV::CloseParen) {
                        Err(e) => Err(e),
                        Ok(m) => Ok((args, m)),
                    },
                }
            }
        },
    }
}

/// A comma-separated argument list: one expression, then the rest.
pub open spec fn spec_parse_arg_list(s: Seq<TokenV>, i: int) -> Result<
    (Seq<UnTypedExpV>, int),
    CompileErrorV,
>
    decreases rem(s, i), 3int,
{
    match spec_parse_expression(s, i, 0) {
        Err(e) => Err(e),
        Ok((first, j)) => {
            if 0 <= i && i < j <= s.len() {
                match spec_parse_arg_rest(s, j) {
                    Err(e) => Err(e),
                    Ok((more, k)) => Ok((seq![first] + more, k)),
                }
            } else {
                Err(CompileErrorV::Internal)
            }
        },
    }
}

/// The remaining arguments after the first: a comma and an expression,
/// repeated.
pub open spec fn spec_parse_arg_rest(s: Seq<TokenV>, i: int) -> Result<
    (Seq<UnTypedExpV>, int),
    CompileErrorV,
>
    decreases rem(s, i), 4int,
{
    if spec_current(s, i) is Comma && 0 <= i < s.len() {
        match spec_parse_expression(s, i + 1, 0) {
            Err(e) => Err(e),
            Ok((a, j)) => {
                if 0 <= i && i < j <= s.len() {
                    match spec_parse_arg_rest(s, j) {
                        Err(e) => Err(e),
                        Ok((more, k)) => Ok((seq![a] + more, k)),
                    }
                } else {
                    Err(CompileErrorV::Internal)
                }
            },
        }
    } else {
        Ok((Seq::empty(), i))
    }
}

/// The middle of a conditional expression: `?`, an expression, `:`.
pub open spec fn spec_parse_conditional_middle(s: Seq<TokenV>, i: int) -> Result<
    (UnTypedExpV, int),
    CompileErrorV,
>
    decreases rem(s, i), 1int,
{
    match spec_eat(s, i, TokenV::QuestionMark) {
        Err(e) => Err(e),
        Ok(j) => match spec_parse_expression(s, j, 0) {
            Err(e) => Err(e),
            Ok((e1, k)) => match spec_eat(s, k, TokenV::Colon) {
                Err(e) => Err(e),
                Ok(m) => Ok((e1, m)),
            },
        },
    }
}

/// The operator tail of an expression by precedence climbing: while the
/// next token binds at least as tightly as `min_prec`, an assignment
/// (right associative at 1), a conditional (right associative at 3), or
/// a binary operator parsed one level tighter.
pub open spec fn spec_parse_exp_loop(
    s: Seq<TokenV>,
    i: int,
    left: UnTypedExpV,
    min_prec: u8,
) -> Result<(UnTypedExpV, int), CompileErrorV>
    decreases rem(s, i), 5int,
{
    match spec_precedence(spec_current(s, i)) {
        None => Ok((left, i)),
        Some(prec) => {
            if prec < min_prec {
                Ok((left, i))
            } else if spec_current(s, i) is EqualSign {
                match spec_eat(s, i, TokenV::EqualSign) {
                    Err(e) => Err(e),
                    Ok(j) => match spec_parse_expression(s, j, prec) {
                        Err(e) => Err(e),
                        Ok((right, k)) => {
                            if 0 <= i && i < k <= s.len() {
                                spec_parse_exp_loop(
                                    s,
                                    k,
                                    UnTypedExpV::Assignment(Box::new(left), Box::new(right)),
                                    min_prec,
                                )
                            } else {
                                Err(CompileErrorV::Internal)
                            }
                        },
                    },
                }
            } else if spec_current(s, i) is QuestionMark {
                match spec_parse_conditional_middle(s, i) {
                    Err(e) => Err(e),
                    Ok((middle, j)) => {
                        if 0 <= i && i < j <= s.len() {
                            match spec_parse_expression(s, j, prec) {
                                Err(e) => Err(e),
                                Ok((right, k)) => {
                                    if 0 <= i && i < k <= s.len() {
                                        spec_parse_exp_loop(
                                            s,
                                            k,
                                            UnTypedExpV::Conditional {
                                                condition: Box::new(left),
                                                then_result: Box::new(middle),
                                                else_result: Box::new(right),
                                            },
                                            min_prec,
                                        )
                                    } else {
                                        Err(CompileErrorV::Internal)
                                    }
                                },
                            }
                        } else {
                            Err(CompileErrorV::Internal)
                        }
                    },
                }
            } else {
                match spec_binop_of(spec_current(s, i)) {
                    Err(e) => Err(e),
                    Ok(operator) => {
                        if 0 <= i < s.len() {
                            let tight: u8 = if prec == 255 {
                                255u8
                            } else {
                                (prec + 1) as u8
                            };
                            match spec_parse_expression(s, i + 1, tight) {
                                Err(e) => Err(e),
                                Ok((right, k)) => {
                                    if 0 <= i && i < k <= s.len() {
                                        spec_parse_exp_loop(
                                            s,
                                            k,
                                            UnTypedExpV::Binary(
                                                operator,
                                                Box::new(left),
                                                Box::new(right),
                                            ),
                                            min_prec,
                                        )
                                    } else {
                                        Err(CompileErrorV::Internal)
                                    }
                                },
                            }
                        } else {
                            Err(CompileErrorV::UnexpectedToken(spec_current(s, i)))
                        }
                    },
                }
            }
        },
    }
}

/// An expression at the given minimum precedence: a factor, then its
/// operator tail.
pub open spec fn spec_parse_expression(s: Seq<TokenV>, i: int, min_prec: u8) -> Result<
    (UnTypedExpV, int),
    CompileErrorV,
>
    decreases rem(s, i), 2int,
{
    match spec_parse_factor(s, i) {
        Err(e) => Err(e),
        Ok((first, j)) => {
            if 0 <= i && i < j <= s.len() {
                spec_parse_exp_loop(s, j, first, min_prec)
            } else {
                Err(CompileErrorV::Internal)
            }
        },
    }
}

/// An optional expression ending at the given delimiter.
pub open spec fn spec_parse_optional_expression(
    s: Seq<TokenV>,
    i: int,
    delim: TokenV,
) -> Result<(Option<UnTypedExpV>, int), CompileErrorV>
    decreases rem(s, i), 6int,
{
    if spec_current(s, i) == delim {
        match spec_eat(s, i, delim) {
            Err(e) => Err(e),
            Ok(j) => Ok((None, j)),
        }
    } else {
        match spec_parse_expression(s, i, 0) {
            Err(e) => Err(e),
            Ok((e1, j)) => match spec_eat(s, j, delim) {
                Err(e) => Err(e),
                Ok(k) => Ok((Some(e1), k)),
            },
        }
    }
}

/// The type a specifier list names: `int`, `long`, or `int long` in
/// either order; anything else is a specifier error.
pub open spec fn spec_parse_type(token_vec: Seq<TokenV>) -> Result<TypeV, CompileErrorV> {
    if token_vec.len() == 1 && token_vec[0] is KWInt {
        Ok(TypeV::Int)
    } else if token_vec.len() == 1 && token_vec[0] is KWLong {
        Ok(TypeV::Long)
    } else if token_vec.len() == 2 && token_vec[0] is KWInt && token_vec[1] is KWLong {
        Ok(TypeV::Long)
    } else if token_vec.len() == 2 && token_vec[0] is KWLong && token_vec[1] is KWInt {
        Ok(TypeV::Long)
    } else {
        Err(CompileErrorV::BadSpecifiers)
    }
}

/// The run of type specifiers at `i`, collected in order.
pub open spec fn spec_parse_type_specifier_list(s: Seq<TokenV>, i: int) -> (Seq<TokenV>, int)
    decreases rem(s, i),
{
    if (spec_current(s, i) is KWInt || spec_current(s, i) is KWLong) && 0 <= i < s.len() {
        let (rest, j) = spec_parse_type_specifier_list(s, i + 1);
        (seq![s[i]] + rest, j)
    } else {
        (Seq::empty(), i)
    }
}

/// The run of type and storage-class specifiers at `i`, collected in
/// order.
pub open spec fn spec_parse_specifier_list(s: Seq<TokenV>, i: int) -> (Seq<TokenV>, int)
    decreases rem(s, i),
{
    if (spec_current(s, i) is KWInt || spec_current(s, i) is KWLong || spec_current(s, i)
        is KWStatic || spec_current(s, i) is KWExtern) && 0 <= i < s.len() {
        let (rest, j) = spec_parse_specifier_list(s, i + 1);
        (seq![s[i]] + rest, j)
    } else {
        (Seq::empty(), i)
    }
}

/// A specifier list split into its type tokens and its storage classes,
/// in order.
pub open spec fn spec_partition_specifiers(ts: Seq<TokenV>) -> Result<
    (Seq<TokenV>, Seq<StorageClass>),
    CompileErrorV,
>
    decreases ts,
{
    if ts.len() == 0 {
        Ok((Seq::empty(), Seq::empty()))
    } else {
        match spec_partition_specifiers(ts.subrange(1, ts.len() as int)) {
            Err(e) => Err(e),
            Ok((types, storage)) => {
                match ts[0] {
                    TokenV::KWInt => Ok((seq![TokenV::KWInt] + types, storage)),
                    TokenV::KWLong => Ok((seq![TokenV::KWLong] + types, storage)),
                    TokenV::KWStatic => Ok((types, seq![StorageClass::Static] + storage)),
                    TokenV::KWExtern => Ok((types, seq![StorageClass::Extern] + storage)),
                    _ => Err(CompileErrorV::BadSpecifiers),
                }
            },
        }
    }
}

/// A specifier partition can only fail as a specifier error.
pub proof fn lemma_partition_err_value(ts: Seq<TokenV>)
    ensures
        spec_partition_specifiers(ts) is Err ==> spec_partition_specifiers(ts)->Err_0
            == CompileErrorV::BadSpecifiers,
    decreases ts,
{
    if ts.len() > 0 {
        lemma_partition_err_value(ts.subrange(1, ts.len() as int));
    }
}

/// The type and the at most one storage class a specifier list names.
pub open spec fn spec_parse_type_and_storage_class(ts: Seq<TokenV>) -> Result<
    (TypeV, Option<StorageClass>),
    CompileErrorV,
> {
    match spec_partition_specifiers(ts) {
        Err(e) => Err(e),
        Ok((types, storage_classes)) => {
            match spec_parse_type(types) {
                Err(e) => Err(e),
                Ok(ty) => {
                    if storage_classes.len() == 0 {
                        Ok((ty, None))
                    } else if storage_classes.len() == 1 {
                        Ok((ty, Some(storage_classes[0])))
                    } else {
                        Err(CompileErrorV::BadSpecifiers)
                    }
                },
            }
        },
    }
}

/// One statement.
pub open spec fn spec_parse_statement(s: Seq<TokenV>, i: int) -> Result<
    (StatementV<UnTypedExpV>, int),
    CompileErrorV,
>
    decreases rem(s, i), 8int,
{
    match spec_current(s, i) {
        TokenV::KWIf => {
            if 0 <= i < s.len() {
                match spec_eat(s, i + 1, TokenV::OpenParen) {
                    Err(e) => Err(e),
                    Ok(j) => match spec_parse_expression(s, j, 0) {
                        Err(e) => Err(e),
                        Ok((condition, k)) => match spec_eat(s, k, TokenV::CloseParen) {
                            Err(e) => Err(e),
                            Ok(m) => {
                                if 0 <= i && i < m <= s.len() {
                                    match spec_parse_statement(s, m) {
                                        Err(e) => Err(e),
                                        Ok((then_clause, n)) => {
                                            if spec_current(s, n) is KWElse && 0 <= n < s.len() {
                                                if 0 <= i && i < n + 1 <= s.len() {
                                                    match spec_parse_statement(s, n + 1) {
                                                        Err(e) => Err(e),
                                                        Ok((else_clause, p)) => Ok(
                                                            (
                                                                StatementV::If {
                                                                    condition,
                                                                    then_clause: Box::new(
                                                                        then_clause,
                                                                    ),
                                                                    else_clause: Some(
                                                                        Box::new(else_clause),
                                                                    ),
                                                                },
                                                                p,
                                                            ),
                                                        ),
                                                    }
                                                } else {
                                                    Err(CompileErrorV::Internal)
                                                }
                                            } else {
                                                Ok(
                                                    (
                                                        StatementV::If {
                                                            condition,
                                                            then_clause: Box::new(then_clause),
                                                            else_clause: None,
                                                        },
                                                        n,
                                                    ),
                                                )
                                            }
                                        },
                                    }
                                } else {
                                    Err(CompileErrorV::Internal)
                                }
                            },
                        },
                    },
                }
            } else {
                Err(CompileErrorV::UnexpectedToken(TokenV::Eof))
            }
        },
        TokenV::OpenBrace => {
            match spec_parse_block(s, i) {
                Err(e) => Err(e),
                Ok((b, j)) => Ok((StatementV::Compound(b), j)),
            }
        },
        TokenV::KWDo => {
            if 0 <= i < s.len() {
                match spec_parse_statement(s, i + 1) {
                    Err(e) => Err(e),
                    Ok((body, j)) => match spec_eat(s, j, TokenV::KWWhile) {
                        Err(e) => Err(e),
                        Ok(k) => match spec_eat(s, k, TokenV::OpenParen) {
                            Err(e) => Err(e),
                            Ok(m) => match spec_parse_expression(s, m, 0) {
                                Err(e) => Err(e),
                                Ok((condition, n)) => match spec_eat(s, n, TokenV::CloseParen) {
                                    Err(e) => Err(e),
                                    Ok(p) => match spec_eat(s, p, TokenV::Semicolon) {
                                        Err(e) => Err(e),
                                        Ok(q) => Ok(
                                            (
                                                StatementV::DoWhile {
                                                    body: Box::new(body),
                                                    condition,
                                                    id: Seq::empty(),
                                                },
                                                q,
                                            ),
                                        ),
                                    },
                                },
                            },
                        },
                    },
                }
            } else {
                Err(CompileErrorV::UnexpectedToken(TokenV::Eof))
            }
        },
        TokenV::KWWhile => {
            if 0 <= i < s.len() {
                match spec_eat(s, i + 1, TokenV::OpenParen) {
                    Err(e) => Err(e),
                    Ok(j) => match spec_parse_expression(s, j, 0) {
                        Err(e) => Err(e),
                        Ok((condition, k)) => match spec_eat(s, k, TokenV::CloseParen) {
                            Err(e) => Err(e),
                            Ok(m) => {
                                if 0 <= i && i < m <= s.len() {
                                    match spec_parse_statement(s, m) {
                                        Err(e) => Err(e),
                                        Ok((body, n)) => Ok(
                                            (
                                                StatementV::While {
                                                    condition,
                                                    body: Box::new(body),
                                                    id: Seq::empty(),
                                                },
                                                n,
                                            ),
                                        ),
                                    }
                                } else {
                                    Err(CompileErrorV::Internal)
                                }
                            },
                        },
                    },
                }
            } else {
                Err(CompileErrorV::UnexpectedToken(TokenV::Eof))
            }
        },
        TokenV::KWFor => {
            if 0 <= i < s.len() {
                match spec_eat(s, i + 1, TokenV::OpenParen) {
                    Err(e) => Err(e),
                    Ok(j) => match spec_parse_for_init(s, j) {
                        Err(e) => Err(e),
                        Ok((init, k)) => match spec_parse_optional_expression(
                            s,
                            k,
                            TokenV::Semicolon,
                        ) {
                            Err(e) => Err(e),
                            Ok((condition, m)) => match spec_parse_optional_expression(
                                s,
                                m,
                                TokenV::CloseParen,
                            ) {
                                Err(e) => Err(e),
                                Ok((post, n)) => {
                                    if 0 <= i && i < n <= s.len() {
                                        match spec_parse_statement(s, n) {
                                            Err(e) => Err(e),
                                            Ok((body, p)) => Ok(
                                                (
                                                    StatementV::For {
                                                        init,
                                                        condition,
                                                        post,
                                                        body: Box::new(body),
                                                        id: Seq::empty(),
                                                    },
                                                    p,
                                                ),
                                            ),
                                        }
                                    } else {
                                        Err(CompileErrorV::Internal)
                                    }
                                },
                            },
                        },
                    },
                }
            } else {
                Err(CompileErrorV::UnexpectedToken(TokenV::Eof))
            }
        },
        TokenV::KWBreak => {
            if 0 <= i < s.len() {
                match spec_eat(s, i + 1, TokenV::Semicolon) {
                    Err(e) => Err(e),
                    Ok(j) => Ok((StatementV::Break(Seq::empty()), j)),
                }
            } else {
                Err(CompileErrorV::UnexpectedToken(TokenV::Eof))
            }
        },
        TokenV::KWContinue => {
            if 0 <= i < s.len() {
                match spec_eat(s, i + 1, TokenV::Semicolon) {
                    Err(e) => Err(e),
                    Ok(j) => Ok((StatementV::Continue(Seq::empty()), j)),
                }
            } else {
                Err(CompileErrorV::UnexpectedToken(TokenV::Eof))
            }
        },
        TokenV::KWReturn => {
            if 0 <= i < s.len() {
                match spec_parse_expression(s, i + 1, 0) {
                    Err(e) => Err(e),
                    Ok((e1, j)) => match spec_eat(s, j, TokenV::Semicolon) {
                        Err(e) => Err(e),
                        Ok(k) => Ok((StatementV::Return(e1), k)),
                    },
                }
            } else {
                Err(CompileErrorV::UnexpectedToken(TokenV::Eof))
            }
        },
        _ => {
            match spec_parse_optional_expression(s, i, TokenV::Semicolon) {
                Err(e) => Err(e),
                Ok((Some(e1), j)) => Ok((StatementV::Expression(e1), j)),
                Ok((None, j)) => Ok((StatementV::Null, j)),
            }
        },
    }
}

/// The first clause of a `for` statement: a variable declaration or an
/// optional expression.
pub open spec fn spec_parse_for_init(s: Seq<TokenV>, i: int) -> Result<
    (ForInitV<UnTypedExpV>, int),
    CompileErrorV,
>
    decreases rem(s, i), 7int,
{
    if spec_current(s, i) is KWInt || spec_current(s, i) is KWLong || spec_current(s, i)
        is KWStatic || spec_current(s, i) is KWExtern {
        match spec_parse_declaration(s, i) {
            Err(e) => Err(e),
            Ok((DeclarationV::VarDecl(vd), j)) => Ok((ForInitV::InitDecl(vd), j)),
            Ok((DeclarationV::FunDecl(fd), j)) => Err(
                CompileErrorV::UnexpectedToken(TokenV::Identifier(fd.name)),
            ),
        }
    } else {
        match spec_parse_optional_expression(s, i, TokenV::Semicolon) {
            Err(e) => Err(e),
            Ok((e1, j)) => Ok((ForInitV::InitExp(e1), j)),
        }
    }
}

/// One block item: a declaration or a statement.
pub open spec fn spec_parse_block_item(s: Seq<TokenV>, i: int) -> Result<
    (BlockItemV<UnTypedExpV>, int),
    CompileErrorV,
>
    decreases rem(s, i), 9int,
{
    if spec_current(s, i) is KWInt || spec_current(s, i) is KWLong || spec_current(s, i)
        is KWStatic || spec_current(s, i) is KWExtern {
        match spec_parse_declaration(s, i) {
            Err(e) => Err(e),
            Ok((d, j)) => Ok((BlockItemV::D(d), j)),
        }
    } else {
        match spec_parse_statement(s, i) {
            Err(e) => Err(e),
            Ok((st, j)) => Ok((BlockItemV::S(st), j)),
        }
    }
}

/// The items of a block, up to the closing brace.
pub open spec fn spec_parse_block_items(s: Seq<TokenV>, i: int) -> Result<
    (Seq<BlockItemV<UnTypedExpV>>, int),
    CompileErrorV,
>
    decreases rem(s, i), 10int,
{
    if !(spec_current(s, i) is CloseBrace) && !(spec_current(s, i) is Eof) {
        match spec_parse_block_item(s, i) {
            Err(e) => Err(e),
            Ok((item, j)) => {
                if 0 <= i && i < j <= s.len() {
                    match spec_parse_block_items(s, j) {
                        Err(e) => Err(e),
                        Ok((items, k)) => Ok((seq![item] + items, k)),
                    }
                } else {
                    Err(CompileErrorV::Internal)
                }
            },
        }
    } else {
        Ok((Seq::empty(), i))
    }
}

/// A brace-enclosed block.
pub open spec fn spec_parse_block(s: Seq<TokenV>, i: int) -> Result<
    (BlockV<UnTypedExpV>, int),
    CompileErrorV,
>
    decreases rem(s, i), 7int,
{
    match spec_eat(s, i, TokenV::OpenBrace) {
        Err(e) => Err(e),
        Ok(j) => match spec_parse_block_items(s, j) {
            Err(e) => Err(e),
            Ok((items, k)) => match spec_eat(s, k, TokenV::CloseBrace) {
                Err(e) => Err(e),
                Ok(m) => Ok((BlockV::Block(items), m)),
            },
        },
    }
}

/// One typed parameter: its specifier run, its type, its name.
pub open spec fn spec_parse_one_param(s: Seq<TokenV>, i: int) -> Result<
    (TypeV, Seq<char>, int),
    CompileErrorV,
> {
    let (specifiers, j) = spec_parse_type_specifier_list(s, i);
    if specifiers.len() == 0 {
        Err(CompileErrorV::BadSpecifiers)
    } else {
        match spec_parse_type(specifiers) {
            Err(e) => Err(e),
            Ok(pt) => match spec_parse_id(s, j) {
                Err(e) => Err(e),
                Ok((name, k)) => Ok((pt, name, k)),
            },
        }
    }
}

/// The parameters after the first: a comma and a typed name, repeated.
pub open spec fn spec_parse_param_rest(s: Seq<TokenV>, i: int) -> Result<
    (Seq<TypeV>, Seq<Seq<char>>, int),
    CompileErrorV,
>
    decreases rem(s, i),
{
    if spec_current(s, i) is Comma && 0 <= i < s.len() {
        match spec_parse_one_param(s, i + 1) {
            Err(e) => Err(e),
            Ok((pt, name, j)) => {
                if 0 <= i && i < j <= s.len() {
                    match spec_parse_param_rest(s, j) {
                        Err(e) => Err(e),
                        Ok((pts, names, k)) => Ok((seq![pt] + pts, seq![name] + names, k)),
                    }
                } else {
                    Err(CompileErrorV::Internal)
                }
            },
        }
    } else {
        Ok((Seq::empty(), Seq::empty(), i))
    }
}

/// A comma-separated, typed parameter list.
pub open spec fn spec_parse_param_list(s: Seq<TokenV>, i: int) -> Result<
    (Seq<TypeV>, Seq<Seq<char>>, int),
    CompileErrorV,
> {
    match spec_parse_one_param(s, i) {
        Err(e) => Err(e),
        Ok((pt, name, j)) => {
            if 0 <= i && i < j <= s.len() {
                match spec_parse_param_rest(s, j) {
                    Err(e) => Err(e),
                    Ok((pts, names, k)) => Ok((seq![pt] + pts, seq![name] + names, k)),
                }
            } else {
                Err(CompileErrorV::Internal)
            }
        },
    }
}

/// The rest of a function declaration after its name: the parameter
/// list (or `void`), then a body or a semicolon.
pub open spec fn spec_finish_function_declaration(
    s: Seq<TokenV>,
    i: int,
    ret_type: TypeV,
    storage_class: Option<StorageClass>,
    name: Seq<char>,
) -> Result<(FunctionDeclarationV<UnTypedExpV>, int), CompileErrorV>
    decreases rem(s, i), 8int,
{
    match spec_eat(s, i, TokenV::OpenParen) {
        Err(e) => Err(e),
        Ok(j) => {
            let params_result: Result<(Seq<TypeV>, Seq<Seq<char>>, int), CompileErrorV> = if
                spec_current(s, j) is KWVoid && 0 <= j < s.len() {
                Ok((Seq::empty(), Seq::empty(), j + 1))
            } else {
                spec_parse_param_list(s, j)
            };
            match params_result {
                Err(e) => Err(e),
                Ok((param_types, params, k)) => match spec_eat(s, k, TokenV::CloseParen) {
                    Err(e) => Err(e),
                    Ok(m) => {
                        match spec_current(s, m) {
                            TokenV::OpenBrace => {
                                if 0 <= i && i < m <= s.len() {
                                    match spec_parse_block(s, m) {
                                        Err(e) => Err(e),
                                        Ok((b, n)) => Ok(
                                            (
                                                FunctionDeclarationV {
                                                    name,
                                                    fun_type: TypeV::FunType {
                                                        param_types,
                                                        ret_type: Box::new(ret_type),
                                                    },
                                                    params,
                                                    body: Some(b),
                                                    storage_class,
                                                },
                                                n,
                                            ),
                                        ),
                                    }
                                } else {
                                    Err(CompileErrorV::Internal)
                                }
                            },
                            TokenV::Semicolon => {
                                if 0 <= m < s.len() {
                                    Ok(
                                        (
                                            FunctionDeclarationV {
                                                name,
                                                fun_type: TypeV::FunType {
                                                    param_types,
                                                    ret_type: Box::new(ret_type),
                                                },
                                                params,
                                                body: None,
                                                storage_class,
                                            },
                                            m + 1,
                                        ),
                                    )
                                } else {
                                    Err(CompileErrorV::UnexpectedToken(TokenV::Eof))
                                }
                            },
                            other => Err(CompileErrorV::UnexpectedToken(other)),
                        }
                    },
                },
            }
        },
    }
}

/// The rest of a variable declaration after its name: a semicolon, or
/// an initializer and a semicolon.
pub open spec fn spec_finish_variable_declaration(
    s: Seq<TokenV>,
    i: int,
    var_type: TypeV,
    storage_class: Option<StorageClass>,
    name: Seq<char>,
) -> Result<(VariableDeclarationV<UnTypedExpV>, int), CompileErrorV> {
    match spec_current(s, i) {
        TokenV::Semicolon => {
            if 0 <= i < s.len() {
                Ok(
                    (
                        VariableDeclarationV { name, var_type, init: None, storage_class },
                        i + 1,
                    ),
                )
            } else {
                Err(CompileErrorV::UnexpectedToken(TokenV::Eof))
            }
        },
        TokenV::EqualSign => {
            match spec_eat(s, i, TokenV::EqualSign) {
                Err(e) => Err(e),
                Ok(j) => match spec_parse_expression(s, j, 0) {
                    Err(e) => Err(e),
                    Ok((init, k)) => match spec_eat(s, k, TokenV::Semicolon) {
                        Err(e) => Err(e),
                        Ok(m) => Ok(
                            (
                                VariableDeclarationV {
                                    name,
                                    var_type,
                                    init: Some(init),
                                    storage_class,
                                },
                                m,
                            ),
                        ),
                    },
                },
            }
        },
        other => Err(CompileErrorV::UnexpectedToken(other)),
    }
}

/// One declaration: its specifiers and name, then a function or a
/// variable by the next token.
pub open spec fn spec_parse_declaration(s: Seq<TokenV>, i: int) -> Result<
    (DeclarationV<UnTypedExpV>, int),
    CompileErrorV,
>
    decreases rem(s, i), 6int,
{
    let (specifiers, j) = spec_parse_specifier_list(s, i);
    if specifiers.len() == 0 {
        Err(CompileErrorV::BadSpecifiers)
    } else {
        match spec_parse_type_and_storage_class(specifiers) {
            Err(e) => Err(e),
            Ok((ty, storage_class)) => {
                match spec_parse_id(s, j) {
                    Err(e) => Err(e),
                    Ok((name, k)) => {
                        if 0 <= i && i < k <= s.len() {
                            if spec_current(s, k) is OpenParen {
                                match spec_finish_function_declaration(
                                    s,
                                    k,
                                    ty,
                                    storage_class,
                                    name,
                                ) {
                                    Err(e) => Err(e),
                                    Ok((fd, m)) => Ok((DeclarationV::FunDecl(fd), m)),
                                }
                            } else {
                                match spec_finish_variable_declaration(
                                    s,
                                    k,
                                    ty,
                                    storage_class,
                                    name,
                                ) {
                                    Err(e) => Err(e),
                                    Ok((vd, m)) => Ok((DeclarationV::VarDecl(vd), m)),
                                }
                            }
                        } else {
                            Err(CompileErrorV::Internal)
                        }
                    },
                }
            },
        }
    }
}

/// The declarations of a translation unit, up to the end of the stream.
pub open spec fn spec_parse_declarations(s: Seq<TokenV>, i: int) -> Result<
    (Seq<DeclarationV<UnTypedExpV>>, int),
    CompileErrorV,
>
    decreases rem(s, i), 11int,
{
    if !(spec_current(s, i) is Eof) {
        match spec_parse_declaration(s, i) {
            Err(e) => Err(e),
            Ok((d, j)) => {
                if 0 <= i && i < j <= s.len() {
                    match spec_parse_declarations(s, j) {
                        Err(e) => Err(e),
                        Ok((ds, k)) => Ok((seq![d] + ds, k)),
                    }
                } else {
                    Err(CompileErrorV::Internal)
                }
            },
        }
    } else {
        Ok((Seq::empty(), i))
    }
}

/// A whole translation unit: declarations until the end-of-file marker.
pub open spec fn spec_parse(s: Seq<TokenV>) -> Result<ProgTypeV<UnTypedExpV>, CompileErrorV> {
    match spec_parse_declarations(s, 0) {
        Err(e) => Err(e),
        Ok((ds, _)) => Ok(ProgTypeV::Program(ds)),
    }
}

/// A recursive-descent parser over a token stream.
pub struct Parser {
    tokens: Vec<tokens::T>,
    pos: usize,
}

impl View for Parser {
    type V = (Seq<TokenV>, int);

    closed spec fn view(&self) -> (Seq<TokenV>, int) {
        (token_views(self.tokens@), self.pos as int)
    }
}

impl Parser {
    /// The cursor never runs past the end of the stream.
    pub open spec fn wf(&self) -> bool {
        0 <= self@.1 <= self@.0.len()
    }

    /// How many tokens remain.
    pub open spec fn remaining(&self) -> int {
        self@.0.len() - self@.1
    }

    /// A parser over the given tokens, starting at their beginning.
    pub fn new(tokens: Vec<tokens::T>) -> (p: Parser)
        ensures
            p.wf(),
            p@ == (token_views(tokens@), 0int),
    {
        proof {
            lemma_token_views(tokens@);
        }
        Parser { tokens, pos: 0 }
    }

    /// The current token; past the end, the end-of-file marker.
    fn current_token(&self) -> (t: tokens::T)
        requires
            self.wf(),
        ensures
            t@ == spec_current(self@.0, self@.1),
            !(t@ is Eof) ==> self.remaining() > 0,
    {
        proof {
            lemma_token_views(self.tokens@);
        }
        if self.pos < self.tokens.len() {
            self.tokens[self.pos].clone()
        } else {
            tokens::T::Eof
        }
    }

    /// Consumes one token.
    fn advance(&mut self)
        requires
            old(self).wf(),
        ensures
            final(self).wf(),
            final(self)@.0 == old(self)@.0,
            old(self).remaining() > 0 ==> final(self)@.1 == old(self)@.1 + 1,
            old(self).remaining() == 0 ==> final(self)@.1 == old(self)@.1,
    {
        proof {
            lemma_token_views(self.tokens@);
        }
        if self.pos < self.tokens.len() {
            self.pos = self.pos + 1;
        }
    }

    /// Consumes the expected token, or reports the one found.
    fn eat_token(&mut self, expected: &tokens::T) -> (r: Result<(), CompileError>)
        requires
            old(self).wf(),
        ensures
            final(self).wf(),
            final(self)@.0 == old(self)@.0,
            final(self).remaining() <= old(self).remaining(),
            match r {
                Ok(_) => spec_eat(old(self)@.0, old(self)@.1, expected@) == Ok::<
                    int,
                    CompileErrorV,
                >(final(self)@.1) && final(self).remaining() < old(self).remaining(),
                Err(e) => spec_eat(old(self)@.0, old(self)@.1, expected@) == Err::<
                    int,
                    CompileErrorV,
                >(e@) && final(self)@ == old(self)@,
            },
    {
        proof {
            lemma_token_views(self.tokens@);
        }
        let actual = self.current_token();
        if token_eq(&actual, expected) {
            if self.pos < self.tokens.len() {
                self.advance();
                Ok(())
            } else {
                Err(CompileError::UnexpectedToken(actual))
            }
        } else {
            Err(CompileError::UnexpectedToken(actual))
        }
    }

    /// Parses an identifier.
    fn parse_id(&mut self) -> (r: Result<String, CompileError>)
        requires
            old(self).wf(),
        ensures
            final(self).wf(),
            final(self)@.0 == old(self)@.0,
            final(self).remaining() <= old(self).remaining(),
            match r {
                Ok(x) => spec_parse_id(old(self)@.0, old(self)@.1) == Ok::<
                    (Seq<char>, int),
                    CompileErrorV,
                >((x@, final(self)@.1)) && final(self).remaining() < old(self).remaining(),
                Err(e) => spec_parse_id(old(self)@.0, old(self)@.1) == Err::<
                    (Seq<char>, int),
                    CompileErrorV,
                >(e@),
            },
    {
        let t = self.current_token();
        match t {
            tokens::T::Identifier(x) => {
                if self.pos < self.tokens.len() {
                    self.advance();
                    Ok(x)
                } else {
                    proof {
                        lemma_token_views(self.tokens@);
                    }
                    Err(CompileError::UnexpectedToken(tokens::T::Identifier(x)))
                }
            },
            other => Err(CompileError::UnexpectedToken(other)),
        }
    }

    /// Parses a constant.
    fn parse_constant(&mut self) -> (r: Result<UnTypedExp, CompileError>)
        requires
            old(self).wf(),
        ensures
            final(self).wf(),
            final(self)@.0 == old(self)@.0,
            final(self).remaining() <= old(self).remaining(),
            match r {
                Ok(x) => spec_parse_constant(old(self)@.0, old(self)@.1) == Ok::<
                    (UnTypedExpV, int),
                    CompileErrorV,
                >((x@, final(self)@.1)) && final(self).remaining() < old(self).remaining(),
                Err(e) => spec_parse_constant(old(self)@.0, old(self)@.1) == Err::<
                    (UnTypedExpV, int),
                    CompileErrorV,
                >(e@),
            },
    {
        proof {
            lemma_token_views(self.tokens@);
        }
        let t = self.current_token();
        match t {
            tokens::T::ConstInt(c) => {
                if self.pos < self.tokens.len() {
                    self.advance();
                    Ok(UnTypedExp::Constant(constants::T::ConstInt(c)))
                } else {
                    Err(CompileError::UnexpectedToken(t))
                }
            },
            tokens::T::ConstLong(c) => {
                if self.pos < self.tokens.len() {
                    self.advance();
                    Ok(UnTypedExp::Constant(constants::T::ConstLong(c)))
                } else {
                    Err(CompileError::UnexpectedToken(t))
                }
            },
            other => Err(CompileError::UnexpectedToken(other)),
        }
    }

    /// The binding power of a binary-expression token.
    fn get_precedence(&self, op: &tokens::T) -> (r: Option<u8>)
        ensures
            r == spec_precedence(op@),
    {
        match op {
            tokens::T::Star | tokens::T::Slash | tokens::T::Percent => Some(50),
            tokens::T::Plus | tokens::T::Hyphen => Some(45),
            tokens::T::LessThan | tokens::T::LessOrEqual | tokens::T::GreaterThan
                | tokens::T::GreaterOrEqual => Some(35),
            tokens::T::DoubleEqual | tokens::T::NotEqual => Some(30),
            tokens::T::LogicalAnd => Some(10),
            tokens::T::LogicalOr => Some(5),
            tokens::T::QuestionMark => Some(3),
            tokens::T::EqualSign => Some(1),
            _ => None,
        }
    }

    /// Parses a factor.
    #[verifier::rlimit(100)]
    #[verifier::spinoff_prover]
    fn parse_factor(&mut self) -> (r: Result<UnTypedExp, CompileError>)
        requires
            old(self).wf(),
        ensures
            final(self).wf(),
            final(self)@.0 == old(self)@.0,
            final(self).remaining() <= old(self).remaining(),
            match r {
                Ok(x) => spec_parse_factor(old(self)@.0, old(self)@.1) == Ok::<
                    (UnTypedExpV, int),
                    CompileErrorV,
                >((x@, final(self)@.1)) && final(self).remaining() < old(self).remaining(),
                Err(e) => spec_parse_factor(old(self)@.0, old(self)@.1) == Err::<
                    (UnTypedExpV, int),
                    CompileErrorV,
                >(e@),
            },
        decreases old(self).remaining(), 0int,
    {
        let t = self.current_token();
        match t {
            tokens::T::ConstInt(_) | tokens::T::ConstLong(_) => {
                let r = self.parse_constant();
                r
            },
            tokens::T::Identifier(_) => {
                let id = self.parse_id()?;
                let next = self.current_token();
                if matches!(next, tokens::T::OpenParen) {
                    let args = self.parse_optional_arg_list()?;
                    proof {
                        lemma_untyped_exp_views(args@);
                    }
                    Ok(UnTypedExp::FunCall { f: id, args })
                } else {
                    Ok(UnTypedExp::Var(id))
                }
            },
            tokens::T::Hyphen => {
                self.advance();
                let inner = self.parse_factor()?;
                Ok(UnTypedExp::Unary(crate::ast::UnaryOperator::Negate, Box::new(inner)))
            },
            tokens::T::Tilde => {
                self.advance();
                let inner = self.parse_factor()?;
                Ok(UnTypedExp::Unary(crate::ast::UnaryOperator::Complement, Box::new(inner)))
            },
            tokens::T::Bang => {
                self.advance();
                let inner = self.parse_factor()?;
                Ok(UnTypedExp::Unary(crate::ast::UnaryOperator::Not, Box::new(inner)))
            },
            tokens::T::OpenParen => {
                self.advance();
                let next = self.current_token();
                if matches!(next, tokens::T::KWInt | tokens::T::KWLong) {
                    let specifiers = self.parse_type_specifier_list();
                    let target_type = self.parse_type(specifiers)?;
                    self.eat_token(&tokens::T::CloseParen)?;
                    let inner = self.parse_factor()?;
                    Ok(UnTypedExp::Cast { target_type, e: Box::new(inner) })
                } else {
                    let e = self.parse_expression(0)?;
                    self.eat_token(&tokens::T::CloseParen)?;
                    Ok(e)
                }
            },
            other => Err(CompileError::UnexpectedToken(other)),
        }
    }

    /// Parses the parenthesised argument list of a call.
    fn parse_optional_arg_list(&mut self) -> (r: Result<Vec<UnTypedExp>, CompileError>)
        requires
            old(self).wf(),
        ensures
            final(self).wf(),
            final(self)@.0 == old(self)@.0,
            final(self).remaining() <= old(self).remaining(),
            match r {
                Ok(args) => spec_parse_optional_arg_list(old(self)@.0, old(self)@.1) == Ok::<
                    (Seq<UnTypedExpV>, int),
                    CompileErrorV,
                >((untyped_exp_views(args@), final(self)@.1)) && final(self).remaining() < old(
                    self,
                ).remaining(),
                Err(e) => spec_parse_optional_arg_list(old(self)@.0, old(self)@.1) == Err::<
                    (Seq<UnTypedExpV>, int),
                    CompileErrorV,
                >(e@),
            },
        decreases old(self).remaining(), 1int,
    {
        self.eat_token(&tokens::T::OpenParen)?;
        let next = self.current_token();
        if matches!(next, tokens::T::CloseParen) {
            self.eat_token(&tokens::T::CloseParen)?;
            let args: Vec<UnTypedExp> = Vec::new();
            proof {
                lemma_untyped_exp_views(args@);
                assert(untyped_exp_views(args@) =~= Seq::<UnTypedExpV>::empty());
            }
            Ok(args)
        } else {
            let args = self.parse_arg_list()?;
            self.eat_token(&tokens::T::CloseParen)?;
            Ok(args)
        }
    }

    /// Parses a comma-separated argument list.
    #[verifier::rlimit(100)]
    fn parse_arg_list(&mut self) -> (r: Result<Vec<UnTypedExp>, CompileError>)
        requires
            old(self).wf(),
        ensures
            final(self).wf(),
            final(self)@.0 == old(self)@.0,
            final(self).remaining() <= old(self).remaining(),
            match r {
                Ok(args) => spec_parse_arg_list(old(self)@.0, old(self)@.1) == Ok::<
                    (Seq<UnTypedExpV>, int),
                    CompileErrorV,
                >((untyped_exp_views(args@), final(self)@.1)) && final(self).remaining() < old(
                    self,
                ).remaining(),
                Err(e) => spec_parse_arg_list(old(self)@.0, old(self)@.1) == Err::<
                    (Seq<UnTypedExpV>, int),
                    CompileErrorV,
                >(e@),
            },
        decreases old(self).remaining(), 3int,
    {
        let ghost s = self@.0;
        let ghost i0 = self@.1;
        let arg = self.parse_expression(0)?;
        let mut args: Vec<UnTypedExp> = Vec::new();
        args.push(arg);
        proof {
            lemma_untyped_exp_views(args@);
            assert(untyped_exp_views(args@) =~= seq![args@[0]@]);
        }
        let ghost first_pos = self@.1;
        while matches!(self.current_token(), tokens::T::Comma)
            invariant
                self.wf(),
                self@.0 == s,
                i0 < first_pos <= self@.1 <= s.len(),
                args@.len() >= 1,
                (match spec_parse_arg_rest(s, self@.1) {
                    Ok((more, k)) => spec_parse_arg_rest(s, first_pos) == Ok::<
                        (Seq<UnTypedExpV>, int),
                        CompileErrorV,
                    >((untyped_exp_views(args@).subrange(1, args@.len() as int) + more, k)),
                    Err(e) => spec_parse_arg_rest(s, first_pos) == Err::<
                        (Seq<UnTypedExpV>, int),
                        CompileErrorV,
                    >(e),
                }),
                untyped_exp_views(args@)[0] == spec_parse_expression(s, i0, 0)->Ok_0.0,
                spec_parse_expression(s, i0, 0) == Ok::<(UnTypedExpV, int), CompileErrorV>(
                    (untyped_exp_views(args@)[0], first_pos),
                ),
            decreases self.remaining(),
        {
            let ghost pos_before = self@.1;
            self.advance();
            let a = match self.parse_expression(0) {
                Ok(a) => a,
                Err(e) => {
                    return Err(e);
                },
            };
            let ghost args_before = args@;
            args.push(a);
            proof {
                lemma_untyped_exp_views(args@);
                lemma_untyped_exp_views(args_before);
                assert(untyped_exp_views(args@) =~= untyped_exp_views(args_before).push(
                    args@[args@.len() - 1]@,
                ));
                assert(untyped_exp_views(args@).subrange(1, args@.len() as int) =~= untyped_exp_views(
                    args_before,
                ).subrange(1, args_before.len() as int).push(args@[args@.len() - 1]@));
                match spec_parse_arg_rest(s, self@.1) {
                    Ok((more, k)) => {
                        assert(spec_parse_arg_rest(s, pos_before) == Ok::<
                            (Seq<UnTypedExpV>, int),
                            CompileErrorV,
                        >((seq![args@[args@.len() - 1]@] + more, k)));
                        assert(untyped_exp_views(args_before).subrange(
                            1,
                            args_before.len() as int,
                        ) + (seq![args@[args@.len() - 1]@] + more) =~= untyped_exp_views(
                            args@,
                        ).subrange(1, args@.len() as int) + more);
                    },
                    Err(e) => {},
                }
            }
        }
        proof {
            lemma_untyped_exp_views(args@);
            assert(spec_parse_arg_rest(s, self@.1) == Ok::<(Seq<UnTypedExpV>, int), CompileErrorV>(
                (Seq::<UnTypedExpV>::empty(), self@.1),
            ));
            assert(untyped_exp_views(args@).subrange(1, args@.len() as int)
                + Seq::<UnTypedExpV>::empty() =~= untyped_exp_views(args@).subrange(
                1,
                args@.len() as int,
            ));
            assert(seq![untyped_exp_views(args@)[0]] + untyped_exp_views(args@).subrange(
                1,
                args@.len() as int,
            ) =~= untyped_exp_views(args@));
        }
        Ok(args)
    }

    /// Parses the middle of a conditional expression.
    fn parse_conditional_middle(&mut self) -> (r: Result<UnTypedExp, CompileError>)
        requires
            old(self).wf(),
        ensures
            final(self).wf(),
            final(self)@.0 == old(self)@.0,
            final(self).remaining() <= old(self).remaining(),
            match r {
                Ok(x) => spec_parse_conditional_middle(old(self)@.0, old(self)@.1) == Ok::<
                    (UnTypedExpV, int),
                    CompileErrorV,
                >((x@, final(self)@.1)) && final(self).remaining() < old(self).remaining(),
                Err(e) => spec_parse_conditional_middle(old(self)@.0, old(self)@.1) == Err::<
                    (UnTypedExpV, int),
                    CompileErrorV,
                >(e@),
            },
        decreases old(self).remaining(), 1int,
    {
        self.eat_token(&tokens::T::QuestionMark)?;
        let e = self.parse_expression(0)?;
        self.eat_token(&tokens::T::Colon)?;
        Ok(e)
    }

    /// Parses the operator tail of an expression by precedence climbing.
    #[verifier::rlimit(100)]
    #[verifier::spinoff_prover]
    fn parse_exp_loop(&mut self, left: UnTypedExp, min_prec: u8) -> (r: Result<
        UnTypedExp,
        CompileError,
    >)
        requires
            old(self).wf(),
        ensures
            final(self).wf(),
            final(self)@.0 == old(self)@.0,
            final(self).remaining() <= old(self).remaining(),
            match r {
                Ok(x) => spec_parse_exp_loop(old(self)@.0, old(self)@.1, left@, min_prec) == Ok::<
                    (UnTypedExpV, int),
                    CompileErrorV,
                >((x@, final(self)@.1)),
                Err(e) => spec_parse_exp_loop(old(self)@.0, old(self)@.1, left@, min_prec) == Err::<
                    (UnTypedExpV, int),
                    CompileErrorV,
                >(e@),
            },
        decreases old(self).remaining(), 5int,
    {
        let next = self.current_token();
        let prec = match self.get_precedence(&next) {
            Some(p) => p,
            None => {
                return Ok(left);
            },
        };
        if prec < min_prec {
            return Ok(left);
        }
        if matches!(next, tokens::T::EqualSign) {
            self.eat_token(&tokens::T::EqualSign)?;
            let right = self.parse_expression(prec)?;
            let new_left = UnTypedExp::Assignment(Box::new(left), Box::new(right));
            let r = self.parse_exp_loop(new_left, min_prec);
            r
        } else if matches!(next, tokens::T::QuestionMark) {
            let middle = self.parse_conditional_middle()?;
            let right = self.parse_expression(prec)?;
            let new_left = UnTypedExp::Conditional {
                condition: Box::new(left),
                then_result: Box::new(middle),
                else_result: Box::new(right),
            };
            let r = self.parse_exp_loop(new_left, min_prec);
            r
        } else {
            let operator = self.parse_binop()?;
            let tight = if prec == 255 {
                255
            } else {
                prec + 1
            };
            let right = self.parse_expression(tight)?;
            let new_left = UnTypedExp::Binary(operator, Box::new(left), Box::new(right));
            let r = self.parse_exp_loop(new_left, min_prec);
            r
        }
    }

    /// Parses a binary operator token.
    fn parse_binop(&mut self) -> (r: Result<crate::ast::BinaryOperator, CompileError>)
        requires
            old(self).wf(),
        ensures
            final(self).wf(),
            final(self)@.0 == old(self)@.0,
            final(self).remaining() <= old(self).remaining(),
            match r {
                Ok(op) => spec_binop_of(spec_current(old(self)@.0, old(self)@.1)) == Ok::<
                    crate::ast::BinaryOperator,
                    CompileErrorV,
                >(op) && old(self).remaining() > 0 && final(self)@.1 == old(self)@.1 + 1,
                Err(e) => (spec_binop_of(spec_current(old(self)@.0, old(self)@.1)) matches Err(e2)
                    && e2 == e@ || old(self).remaining() == 0 && e@
                    == CompileErrorV::UnexpectedToken(spec_current(old(self)@.0, old(self)@.1)))
                    && final(self)@ == old(self)@,
            },
    {
        let t = self.current_token();
        if self.pos >= self.tokens.len() {
            proof {
                lemma_token_views(self.tokens@);
            }
            return Err(CompileError::UnexpectedToken(t));
        }
        let op = match t {
            tokens::T::Plus => crate::ast::BinaryOperator::Add,
            tokens::T::Hyphen => crate::ast::BinaryOperator::Subtract,
            tokens::T::Star => crate::ast::BinaryOperator::Multiply,
            tokens::T::Slash => crate::ast::BinaryOperator::Divide,
            tokens::T::Percent => crate::ast::BinaryOperator::Mod,
            tokens::T::LogicalAnd => crate::ast::BinaryOperator::And,
            tokens::T::LogicalOr => crate::ast::BinaryOperator::Or,
            tokens::T::DoubleEqual => crate::ast::BinaryOperator::Equal,
            tokens::T::NotEqual => crate::ast::BinaryOperator::NotEqual,
            tokens::T::LessThan => crate::ast::BinaryOperator::LessThan,
            tokens::T::LessOrEqual => crate::ast::BinaryOperator::LessOrEqual,
            tokens::T::GreaterThan => crate::ast::BinaryOperator::GreaterThan,
            tokens::T::GreaterOrEqual => crate::ast::BinaryOperator::GreaterOrEqual,
            other => {
                return Err(CompileError::UnexpectedToken(other));
            },
        };
        self.advance();
        Ok(op)
    }

    /// Parses an expression at the given minimum precedence.
    fn parse_expression(&mut self, min_prec: u8) -> (r: Result<UnTypedExp, CompileError>)
        requires
            old(self).wf(),
        ensures
            final(self).wf(),
            final(self)@.0 == old(self)@.0,
            final(self).remaining() <= old(self).remaining(),
            match r {
                Ok(x) => spec_parse_expression(old(self)@.0, old(self)@.1, min_prec) == Ok::<
                    (UnTypedExpV, int),
                    CompileErrorV,
                >((x@, final(self)@.1)) && final(self).remaining() < old(self).remaining(),
                Err(e) => spec_parse_expression(old(self)@.0, old(self)@.1, min_prec) == Err::<
                    (UnTypedExpV, int),
                    CompileErrorV,
                >(e@),
            },
        decreases old(self).remaining(), 2int,
    {
        let initial = self.parse_factor()?;
        let r = self.parse_exp_loop(initial, min_prec)?;
        Ok(r)
    }

    /// Parses an optional expression ending at the given delimiter.
    fn parse_optional_expression(&mut self, delim: &tokens::T) -> (r: Result<
        Option<UnTypedExp>,
        CompileError,
    >)
        requires
            old(self).wf(),
        ensures
            final(self).wf(),
            final(self)@.0 == old(self)@.0,
            final(self).remaining() <= old(self).remaining(),
            match r {
                Ok(x) => spec_parse_optional_expression(old(self)@.0, old(self)@.1, delim@)
                    == Ok::<(Option<UnTypedExpV>, int), CompileErrorV>(
                    (
                        match x {
                            Some(e) => Some(e@),
                            None => None,
                        },
                        final(self)@.1,
                    ),
                ) && final(self).remaining() < old(self).remaining(),
                Err(e) => spec_parse_optional_expression(old(self)@.0, old(self)@.1, delim@)
                    == Err::<(Option<UnTypedExpV>, int), CompileErrorV>(e@),
            },
        decreases old(self).remaining(), 6int,
    {
        let t = self.current_token();
        if token_eq(&t, delim) {
            self.eat_token(delim)?;
            Ok(None)
        } else {
            let e = self.parse_expression(0)?;
            self.eat_token(delim)?;
            Ok(Some(e))
        }
    }

    /// Parses the type named by a specifier list.
    fn parse_type(&self, token_vec: Vec<tokens::T>) -> (r: Result<Type, CompileError>)
        ensures
            match r {
                Ok(t) => spec_parse_type(token_views(token_vec@)) == Ok::<TypeV, CompileErrorV>(
                    t@,
                ),
                Err(e) => spec_parse_type(token_views(token_vec@)) == Err::<TypeV, CompileErrorV>(
                    e@,
                ),
            },
    {
        proof {
            lemma_token_views(token_vec@);
        }
        if token_vec.len() == 1 && matches!(token_vec[0], tokens::T::KWInt) {
            Ok(Type::Int)
        } else if token_vec.len() == 1 && matches!(token_vec[0], tokens::T::KWLong) {
            Ok(Type::Long)
        } else if token_vec.len() == 2 && matches!(token_vec[0], tokens::T::KWInt) && matches!(
            token_vec[1],
            tokens::T::KWLong,
        ) {
            Ok(Type::Long)
        } else if token_vec.len() == 2 && matches!(token_vec[0], tokens::T::KWLong) && matches!(
            token_vec[1],
            tokens::T::KWInt,
        ) {
            Ok(Type::Long)
        } else {
            Err(CompileError::BadSpecifiers)
        }
    }

    /// Collects the type specifiers at the cursor.
    fn parse_type_specifier_list(&mut self) -> (r: Vec<tokens::T>)
        requires
            old(self).wf(),
        ensures
            final(self).wf(),
            final(self)@.0 == old(self)@.0,
            spec_parse_type_specifier_list(old(self)@.0, old(self)@.1) == (
                token_views(r@),
                final(self)@.1,
            ),
            final(self).remaining() + r@.len() == old(self).remaining(),
    {
        let ghost s = self@.0;
        let ghost i0 = self@.1;
        let mut result: Vec<tokens::T> = Vec::new();
        proof {
            lemma_token_views(result@);
            assert(token_views(result@) =~= Seq::<TokenV>::empty());
        }
        while matches!(self.current_token(), tokens::T::KWInt | tokens::T::KWLong)
            invariant
                self.wf(),
                self@.0 == s,
                i0 <= self@.1,
                i0 + result@.len() == self@.1,
                (match spec_parse_type_specifier_list(s, self@.1) {
                    (rest, j) => spec_parse_type_specifier_list(s, i0) == (
                        token_views(result@) + rest,
                        j,
                    ),
                }),
            decreases self.remaining(),
        {
            let ghost pos_before = self@.1;
            let t = self.current_token();
            let ghost result_before = result@;
            result.push(t);
            self.advance();
            proof {
                lemma_token_views(result@);
                lemma_token_views(result_before);
                assert(token_views(result@) =~= token_views(result_before).push(
                    result@[result@.len() - 1]@,
                ));
                let (rest, j) = spec_parse_type_specifier_list(s, self@.1);
                assert(spec_parse_type_specifier_list(s, pos_before) == (
                    seq![s[pos_before]] + rest,
                    j,
                ));
                assert(token_views(result_before) + (seq![s[pos_before]] + rest) =~= token_views(
                    result@,
                ) + rest);
            }
        }
        proof {
            assert(spec_parse_type_specifier_list(s, self@.1) == (
                Seq::<TokenV>::empty(),
                self@.1,
            ));
            assert(token_views(result@) + Seq::<TokenV>::empty() =~= token_views(result@));
        }
        result
    }

    /// Collects the type and storage-class specifiers at the cursor.
    fn parse_specifier_list(&mut self) -> (r: Vec<tokens::T>)
        requires
            old(self).wf(),
        ensures
            final(self).wf(),
            final(self)@.0 == old(self)@.0,
            spec_parse_specifier_list(old(self)@.0, old(self)@.1) == (
                token_views(r@),
                final(self)@.1,
            ),
            final(self).remaining() + r@.len() == old(self).remaining(),
    {
        let ghost s = self@.0;
        let ghost i0 = self@.1;
        let mut result: Vec<tokens::T> = Vec::new();
        proof {
            lemma_token_views(result@);
            assert(token_views(result@) =~= Seq::<TokenV>::empty());
        }
        while matches!(
            self.current_token(),
            tokens::T::KWInt | tokens::T::KWLong | tokens::T::KWStatic | tokens::T::KWExtern,
        )
            invariant
                self.wf(),
                self@.0 == s,
                i0 <= self@.1,
                i0 + result@.len() == self@.1,
                (match spec_parse_specifier_list(s, self@.1) {
                    (rest, j) => spec_parse_specifier_list(s, i0) == (
                        token_views(result@) + rest,
                        j,
                    ),
                }),
            decreases self.remaining(),
        {
            let ghost pos_before = self@.1;
            let t = self.current_token();
            let ghost result_before = result@;
            result.push(t);
            self.advance();
            proof {
                lemma_token_views(result@);
                lemma_token_views(result_before);
                assert(token_views(result@) =~= token_views(result_before).push(
                    result@[result@.len() - 1]@,
                ));
                let (rest, j) = spec_parse_specifier_list(s, self@.1);
                assert(spec_parse_specifier_list(s, pos_before) == (
                    seq![s[pos_before]] + rest,
                    j,
                ));
                assert(token_views(result_before) + (seq![s[pos_before]] + rest) =~= token_views(
                    result@,
                ) + rest);
            }
        }
        proof {
            assert(spec_parse_specifier_list(s, self@.1) == (Seq::<TokenV>::empty(), self@.1));
            assert(token_views(result@) + Seq::<TokenV>::empty() =~= token_views(result@));
        }
        result
    }

    /// Splits a specifier list into its type and its at most one storage
    /// class.
    #[verifier::rlimit(100)]
    fn parse_type_and_storage_class(&self, specifier_list: Vec<tokens::T>) -> (r: Result<
        (Type, Option<StorageClass>),
        CompileError,
    >)
        ensures
            match r {
                Ok((t, sc)) => spec_parse_type_and_storage_class(token_views(specifier_list@))
                    == Ok::<(TypeV, Option<StorageClass>), CompileErrorV>((t@, sc)),
                Err(e) => spec_parse_type_and_storage_class(token_views(specifier_list@)) == Err::<
                    (TypeV, Option<StorageClass>),
                    CompileErrorV,
                >(e@),
            },
    {
        let ghost full = token_views(specifier_list@);
        proof {
            lemma_token_views(specifier_list@);
        }
        let mut types: Vec<tokens::T> = Vec::new();
        let mut storage_classes: Vec<StorageClass> = Vec::new();
        let mut rest = specifier_list;
        let ghost v0 = rest;
        let n0 = rest.len();
        proof {
            assert(v0@.len() == n0);
            lemma_token_views(types@);
            assert(token_views(types@) =~= Seq::<TokenV>::empty());
        }
        proof {
            assert(full.subrange(0, full.len() as int) =~= full);
            assert(rest@ =~= v0@.subrange(0, v0@.len() as int));
        }
        let mut i: usize = 0;
        while rest.len() > 0
            invariant
                v0@.len() <= usize::MAX,
                i + rest@.len() == v0@.len(),
                rest@ == v0@.subrange(i as int, v0@.len() as int),
                full == token_views(v0@),
                full.len() == v0@.len(),
                forall|j: int| 0 <= j < full.len() ==> full[j] == v0@[j]@,
                (match spec_partition_specifiers(full.subrange(i as int, full.len() as int)) {
                    Ok((ts, scs)) => spec_partition_specifiers(full) == Ok::<
                        (Seq<TokenV>, Seq<StorageClass>),
                        CompileErrorV,
                    >((token_views(types@) + ts, storage_classes@ + scs)),
                    Err(e) => spec_partition_specifiers(full) is Err
                        && spec_partition_specifiers(full)->Err_0 == e,
                }),
            decreases rest@.len(),
        {
            let t = rest.remove(0);
            proof {
                assert(t == v0@[i as int]);
                assert(rest@ =~= v0@.subrange(i + 1, v0@.len() as int));
                assert(full.subrange(i as int, full.len() as int)[0] == full[i as int]);
                assert(full.subrange(i as int, full.len() as int).subrange(
                    1,
                    full.len() - i,
                ) =~= full.subrange(i + 1, full.len() as int));
            }
            let ghost types_before = types@;
            let ghost scs_before = storage_classes@;
            match t {
                tokens::T::KWInt => {
                    types.push(tokens::T::KWInt);
                    proof {
                        lemma_token_views(types@);
                        lemma_token_views(types_before);
                        assert(token_views(types@) =~= token_views(types_before).push(
                            TokenV::KWInt,
                        ));
                        match spec_partition_specifiers(
                            full.subrange(i + 1, full.len() as int),
                        ) {
                            Ok((ts, scs)) => {
                                assert(token_views(types_before) + (seq![TokenV::KWInt] + ts)
                                    =~= token_views(types@) + ts);
                            },
                            Err(e) => {},
                        }
                    }
                },
                tokens::T::KWLong => {
                    types.push(tokens::T::KWLong);
                    proof {
                        lemma_token_views(types@);
                        lemma_token_views(types_before);
                        assert(token_views(types@) =~= token_views(types_before).push(
                            TokenV::KWLong,
                        ));
                        match spec_partition_specifiers(
                            full.subrange(i + 1, full.len() as int),
                        ) {
                            Ok((ts, scs)) => {
                                assert(token_views(types_before) + (seq![TokenV::KWLong] + ts)
                                    =~= token_views(types@) + ts);
                            },
                            Err(e) => {},
                        }
                    }
                },
                tokens::T::KWStatic => {
                    storage_classes.push(StorageClass::Static);
                    proof {
                        match spec_partition_specifiers(
                            full.subrange(i + 1, full.len() as int),
                        ) {
                            Ok((ts, scs)) => {
                                assert(scs_before + (seq![StorageClass::Static] + scs)
                                    =~= storage_classes@ + scs);
                            },
                            Err(e) => {},
                        }
                    }
                },
                tokens::T::KWExtern => {
                    storage_classes.push(StorageClass::Extern);
                    proof {
                        match spec_partition_specifiers(
                            full.subrange(i + 1, full.len() as int),
                        ) {
                            Ok((ts, scs)) => {
                                assert(scs_before + (seq![StorageClass::Extern] + scs)
                                    =~= storage_classes@ + scs);
                            },
                            Err(e) => {},
                        }
                    }
                },
                _ => {
                    proof {
                        lemma_partition_err_value(full.subrange(i as int, full.len() as int));
                        lemma_partition_err_value(full);
                        assert(spec_partition_specifiers(
                            full.subrange(i as int, full.len() as int),
                        ) is Err);
                    }
                    return Err(CompileError::BadSpecifiers);
                },
            }
            i += 1;
        }
        proof {
            assert(full.subrange(v0@.len() as int, full.len() as int) =~= Seq::<TokenV>::empty());
            assert(spec_partition_specifiers(Seq::<TokenV>::empty()) == Ok::<
                (Seq<TokenV>, Seq<StorageClass>),
                CompileErrorV,
            >((Seq::<TokenV>::empty(), Seq::<StorageClass>::empty())));
            assert(token_views(types@) + Seq::<TokenV>::empty() =~= token_views(types@));
            assert(storage_classes@ + Seq::<StorageClass>::empty() =~= storage_classes@);
        }
        let ty = self.parse_type(types)?;
        if storage_classes.len() == 0 {
            Ok((ty, None))
        } else if storage_classes.len() == 1 {
            Ok((ty, Some(storage_classes[0])))
        } else {
            Err(CompileError::BadSpecifiers)
        }
    }

    /// Parses one statement.
    #[verifier::rlimit(100)]
    #[verifier::spinoff_prover]
    fn parse_statement(&mut self) -> (r: Result<Statement<UnTypedExp>, CompileError>)
        requires
            old(self).wf(),
        ensures
            final(self).wf(),
            final(self)@.0 == old(self)@.0,
            final(self).remaining() <= old(self).remaining(),
            match r {
                Ok(x) => spec_parse_statement(old(self)@.0, old(self)@.1) == Ok::<
                    (StatementV<UnTypedExpV>, int),
                    CompileErrorV,
                >((x@, final(self)@.1)) && final(self).remaining() < old(self).remaining(),
                Err(e) => spec_parse_statement(old(self)@.0, old(self)@.1) == Err::<
                    (StatementV<UnTypedExpV>, int),
                    CompileErrorV,
                >(e@),
            },
        decreases old(self).remaining(), 8int,
    {
        let t = self.current_token();
        match t {
            tokens::T::KWIf => {
                self.advance();
                self.eat_token(&tokens::T::OpenParen)?;
                let condition = self.parse_expression(0)?;
                self.eat_token(&tokens::T::CloseParen)?;
                let then_clause = self.parse_statement()?;
                let next = self.current_token();
                if matches!(next, tokens::T::KWElse) {
                    self.advance();
                    let else_clause = self.parse_statement()?;
                    Ok(
                        Statement::If {
                            condition,
                            then_clause: Box::new(then_clause),
                            else_clause: Some(Box::new(else_clause)),
                        },
                    )
                } else {
                    Ok(
                        Statement::If {
                            condition,
                            then_clause: Box::new(then_clause),
                            else_clause: None,
                        },
                    )
                }
            },
            tokens::T::OpenBrace => {
                let b = self.parse_block()?;
                Ok(Statement::Compound(b))
            },
            tokens::T::KWDo => {
                self.advance();
                let body = self.parse_statement()?;
                self.eat_token(&tokens::T::KWWhile)?;
                self.eat_token(&tokens::T::OpenParen)?;
                let condition = self.parse_expression(0)?;
                self.eat_token(&tokens::T::CloseParen)?;
                self.eat_token(&tokens::T::Semicolon)?;
                Ok(Statement::DoWhile { body: Box::new(body), condition, id: String::new() })
            },
            tokens::T::KWWhile => {
                self.advance();
                self.eat_token(&tokens::T::OpenParen)?;
                let condition = self.parse_expression(0)?;
                self.eat_token(&tokens::T::CloseParen)?;
                let body = self.parse_statement()?;
                Ok(Statement::While { condition, body: Box::new(body), id: String::new() })
            },
            tokens::T::KWFor => {
                self.advance();
                self.eat_token(&tokens::T::OpenParen)?;
                let init = self.parse_for_init()?;
                let condition = self.parse_optional_expression(&tokens::T::Semicolon)?;
                let post = self.parse_optional_expression(&tokens::T::CloseParen)?;
                let body = self.parse_statement()?;
                Ok(
                    Statement::For {
                        init,
                        condition,
                        post,
                        body: Box::new(body),
                        id: String::new(),
                    },
                )
            },
            tokens::T::KWBreak => {
                self.advance();
                self.eat_token(&tokens::T::Semicolon)?;
                Ok(Statement::Break(String::new()))
            },
            tokens::T::KWContinue => {
                self.advance();
                self.eat_token(&tokens::T::Semicolon)?;
                Ok(Statement::Continue(String::new()))
            },
            tokens::T::KWReturn => {
                self.advance();
                let e = self.parse_expression(0)?;
                self.eat_token(&tokens::T::Semicolon)?;
                Ok(Statement::Return(e))
            },
            _ => {
                let opt = self.parse_optional_expression(&tokens::T::Semicolon)?;
                match opt {
                    Some(e) => Ok(Statement::Expression(e)),
                    None => Ok(Statement::Null),
                }
            },
        }
    }

    /// Parses the first clause of a `for` statement.
    fn parse_for_init(&mut self) -> (r: Result<ForInit<UnTypedExp>, CompileError>)
        requires
            old(self).wf(),
        ensures
            final(self).wf(),
            final(self)@.0 == old(self)@.0,
            final(self).remaining() <= old(self).remaining(),
            match r {
                Ok(x) => spec_parse_for_init(old(self)@.0, old(self)@.1) == Ok::<
                    (ForInitV<UnTypedExpV>, int),
                    CompileErrorV,
                >((x@, final(self)@.1)) && final(self).remaining() < old(self).remaining(),
                Err(e) => spec_parse_for_init(old(self)@.0, old(self)@.1) == Err::<
                    (ForInitV<UnTypedExpV>, int),
                    CompileErrorV,
                >(e@),
            },
        decreases old(self).remaining(), 7int,
    {
        let t = self.current_token();
        if matches!(
            t,
            tokens::T::KWInt | tokens::T::KWLong | tokens::T::KWStatic | tokens::T::KWExtern,
        ) {
            let d = self.parse_declaration()?;
            match d {
                Declaration::VarDecl(vd) => Ok(ForInit::InitDecl(vd)),
                Declaration::FunDecl(fd) => Err(
                    CompileError::UnexpectedToken(tokens::T::Identifier(fd.name)),
                ),
            }
        } else {
            let e = self.parse_optional_expression(&tokens::T::Semicolon)?;
            Ok(ForInit::InitExp(e))
        }
    }

    /// Parses one block item: a declaration or a statement.
    #[verifier::rlimit(100)]
    #[verifier::spinoff_prover]
    fn parse_block_item(&mut self) -> (r: Result<BlockItem<UnTypedExp>, CompileError>)
        requires
            old(self).wf(),
        ensures
            final(self).wf(),
            final(self)@.0 == old(self)@.0,
            final(self).remaining() <= old(self).remaining(),
            match r {
                Ok(x) => spec_parse_block_item(old(self)@.0, old(self)@.1) == Ok::<
                    (BlockItemV<UnTypedExpV>, int),
                    CompileErrorV,
                >((x@, final(self)@.1)) && final(self).remaining() < old(self).remaining(),
                Err(e) => spec_parse_block_item(old(self)@.0, old(self)@.1) == Err::<
                    (BlockItemV<UnTypedExpV>, int),
                    CompileErrorV,
                >(e@),
            },
        decreases old(self).remaining(), 9int,
    {
        let t = self.current_token();
        if matches!(
            t,
            tokens::T::KWInt | tokens::T::KWLong | tokens::T::KWStatic | tokens::T::KWExtern,
        ) {
            let d = self.parse_declaration()?;
            Ok(BlockItem::D(d))
        } else {
            let s = self.parse_statement()?;
            Ok(BlockItem::S(s))
        }
    }

    /// Parses a brace-enclosed block.
    #[verifier::rlimit(100)]
    fn parse_block(&mut self) -> (r: Result<Block<UnTypedExp>, CompileError>)
        requires
            old(self).wf(),
        ensures
            final(self).wf(),
            final(self)@.0 == old(self)@.0,
            final(self).remaining() <= old(self).remaining(),
            match r {
                Ok(x) => spec_parse_block(old(self)@.0, old(self)@.1) == Ok::<
                    (BlockV<UnTypedExpV>, int),
                    CompileErrorV,
                >((x@, final(self)@.1)) && final(self).remaining() < old(self).remaining(),
                Err(e) => spec_parse_block(old(self)@.0, old(self)@.1) == Err::<
                    (BlockV<UnTypedExpV>, int),
                    CompileErrorV,
                >(e@),
            },
        decreases old(self).remaining(), 7int,
    {
        let ghost s = self@.0;
        self.eat_token(&tokens::T::OpenBrace)?;
        let ghost open_pos = self@.1;
        let mut items: Vec<BlockItem<UnTypedExp>> = Vec::new();
        proof {
            crate::ast::lemma_block_item_views(items@);
            assert(crate::ast::block_item_views(items@) =~= Seq::<BlockItemV<UnTypedExpV>>::empty());
        }
        while !matches!(self.current_token(), tokens::T::CloseBrace | tokens::T::Eof)
            invariant
                self.wf(),
                self@.0 == s,
                open_pos <= self@.1 <= s.len(),
                self@.1 > old(self)@.1,
                (match spec_parse_block_items(s, self@.1) {
                    Ok((more, k)) => spec_parse_block_items(s, open_pos) == Ok::<
                        (Seq<BlockItemV<UnTypedExpV>>, int),
                        CompileErrorV,
                    >((crate::ast::block_item_views(items@) + more, k)),
                    Err(e) => spec_parse_block_items(s, open_pos) == Err::<
                        (Seq<BlockItemV<UnTypedExpV>>, int),
                        CompileErrorV,
                    >(e),
                }),
            decreases self.remaining(),
        {
            let ghost pos_before = self@.1;
            let item = match self.parse_block_item() {
                Ok(it) => it,
                Err(e) => {
                    return Err(e);
                },
            };
            let ghost items_before = items@;
            items.push(item);
            proof {
                crate::ast::lemma_block_item_views(items@);
                crate::ast::lemma_block_item_views(items_before);
                assert(crate::ast::block_item_views(items@) =~= crate::ast::block_item_views(
                    items_before,
                ).push(items@[items@.len() - 1]@));
                match spec_parse_block_items(s, self@.1) {
                    Ok((more, k)) => {
                        assert(spec_parse_block_items(s, pos_before) == Ok::<
                            (Seq<BlockItemV<UnTypedExpV>>, int),
                            CompileErrorV,
                        >((seq![items@[items@.len() - 1]@] + more, k)));
                        assert(crate::ast::block_item_views(items_before) + (seq![
                            items@[items@.len() - 1]@,
                        ] + more) =~= crate::ast::block_item_views(items@) + more);
                    },
                    Err(e) => {},
                }
            }
        }
        proof {
            assert(spec_parse_block_items(s, self@.1) == Ok::<
                (Seq<BlockItemV<UnTypedExpV>>, int),
                CompileErrorV,
            >((Seq::<BlockItemV<UnTypedExpV>>::empty(), self@.1)));
            assert(crate::ast::block_item_views(items@) + Seq::<BlockItemV<UnTypedExpV>>::empty()
                =~= crate::ast::block_item_views(items@));
        }
        self.eat_token(&tokens::T::CloseBrace)?;
        Ok(Block::Block(items))
    }

    /// Parses one typed parameter.
    fn parse_one_param(&mut self) -> (r: Result<(Type, String), CompileError>)
        requires
            old(self).wf(),
        ensures
            final(self).wf(),
            final(self)@.0 == old(self)@.0,
            final(self).remaining() <= old(self).remaining(),
            match r {
                Ok((pt, name)) => spec_parse_one_param(old(self)@.0, old(self)@.1) == Ok::<
                    (TypeV, Seq<char>, int),
                    CompileErrorV,
                >((pt@, name@, final(self)@.1)) && final(self).remaining() < old(self).remaining(),
                Err(e) => spec_parse_one_param(old(self)@.0, old(self)@.1) == Err::<
                    (TypeV, Seq<char>, int),
                    CompileErrorV,
                >(e@),
            },
    {
        let specifiers = self.parse_type_specifier_list();
        if specifiers.len() == 0 {
            proof {
                lemma_token_views(specifiers@);
            }
            return Err(CompileError::BadSpecifiers);
        }
        proof {
            lemma_token_views(specifiers@);
        }
        let pt = self.parse_type(specifiers)?;
        let name = self.parse_id()?;
        Ok((pt, name))
    }

    /// Parses a comma-separated, typed parameter list.
    #[verifier::rlimit(100)]
    fn parse_param_list(&mut self) -> (r: Result<(Vec<Type>, Vec<String>), CompileError>)
        requires
            old(self).wf(),
        ensures
            final(self).wf(),
            final(self)@.0 == old(self)@.0,
            final(self).remaining() <= old(self).remaining(),
            match r {
                Ok((pts, names)) => spec_parse_param_list(old(self)@.0, old(self)@.1) == Ok::<
                    (Seq<TypeV>, Seq<Seq<char>>, int),
                    CompileErrorV,
                >(
                    (
                        type_views(pts@),
                        crate::text::string_views(names@),
                        final(self)@.1,
                    ),
                ) && final(self).remaining() < old(self).remaining(),
                Err(e) => spec_parse_param_list(old(self)@.0, old(self)@.1) == Err::<
                    (Seq<TypeV>, Seq<Seq<char>>, int),
                    CompileErrorV,
                >(e@),
            },
    {
        let ghost s = self@.0;
        let ghost i0 = self@.1;
        let (pt, name) = self.parse_one_param()?;
        let mut param_types: Vec<Type> = Vec::new();
        let mut params: Vec<String> = Vec::new();
        param_types.push(pt);
        params.push(name);
        proof {
            crate::types::lemma_type_views(param_types@);
            crate::text::lemma_string_views(params@);
            assert(type_views(param_types@) =~= seq![param_types@[0]@]);
            assert(crate::text::string_views(params@) =~= seq![params@[0]@]);
        }
        let ghost first_pos = self@.1;
        while matches!(self.current_token(), tokens::T::Comma)
            invariant
                self.wf(),
                self@.0 == s,
                i0 < first_pos <= self@.1 <= s.len(),
                param_types@.len() == params@.len() >= 1,
                spec_parse_one_param(s, i0) == Ok::<(TypeV, Seq<char>, int), CompileErrorV>(
                    (type_views(param_types@)[0], crate::text::string_views(params@)[0], first_pos),
                ),
                (match spec_parse_param_rest(s, self@.1) {
                    Ok((pts, names, k)) => spec_parse_param_rest(s, first_pos) == Ok::<
                        (Seq<TypeV>, Seq<Seq<char>>, int),
                        CompileErrorV,
                    >(
                        (
                            type_views(param_types@).subrange(1, param_types@.len() as int) + pts,
                            crate::text::string_views(params@).subrange(1, params@.len() as int)
                                + names,
                            k,
                        ),
                    ),
                    Err(e) => spec_parse_param_rest(s, first_pos) == Err::<
                        (Seq<TypeV>, Seq<Seq<char>>, int),
                        CompileErrorV,
                    >(e),
                }),
            decreases self.remaining(),
        {
            let ghost pos_before = self@.1;
            self.advance();
            let pr = self.parse_one_param();
            let (pt2, name2) = match pr {
                Ok(p) => p,
                Err(e) => {
                    return Err(e);
                },
            };
            let ghost pts_before = param_types@;
            let ghost names_before = params@;
            param_types.push(pt2);
            params.push(name2);
            proof {
                crate::types::lemma_type_views(param_types@);
                crate::types::lemma_type_views(pts_before);
                crate::text::lemma_string_views(params@);
                crate::text::lemma_string_views(names_before);
                assert(type_views(param_types@) =~= type_views(pts_before).push(
                    param_types@[param_types@.len() - 1]@,
                ));
                assert(crate::text::string_views(params@) =~= crate::text::string_views(
                    names_before,
                ).push(params@[params@.len() - 1]@));
                match spec_parse_param_rest(s, self@.1) {
                    Ok((pts, names, k)) => {
                        assert(spec_parse_param_rest(s, pos_before) == Ok::<
                            (Seq<TypeV>, Seq<Seq<char>>, int),
                            CompileErrorV,
                        >(
                            (
                                seq![param_types@[param_types@.len() - 1]@] + pts,
                                seq![params@[params@.len() - 1]@] + names,
                                k,
                            ),
                        ));
                        assert(type_views(pts_before).subrange(1, pts_before.len() as int) + (seq![
                            param_types@[param_types@.len() - 1]@,
                        ] + pts) =~= type_views(param_types@).subrange(
                            1,
                            param_types@.len() as int,
                        ) + pts);
                        assert(crate::text::string_views(names_before).subrange(
                            1,
                            names_before.len() as int,
                        ) + (seq![params@[params@.len() - 1]@] + names)
                            =~= crate::text::string_views(params@).subrange(
                            1,
                            params@.len() as int,
                        ) + names);
                    },
                    Err(e) => {},
                }
            }
        }
        proof {
            crate::types::lemma_type_views(param_types@);
            crate::text::lemma_string_views(params@);
            assert(spec_parse_param_rest(s, self@.1) == Ok::<
                (Seq<TypeV>, Seq<Seq<char>>, int),
                CompileErrorV,
            >((Seq::<TypeV>::empty(), Seq::<Seq<char>>::empty(), self@.1)));
            assert(type_views(param_types@).subrange(1, param_types@.len() as int)
                + Seq::<TypeV>::empty() =~= type_views(param_types@).subrange(
                1,
                param_types@.len() as int,
            ));
            assert(crate::text::string_views(params@).subrange(1, params@.len() as int)
                + Seq::<Seq<char>>::empty() =~= crate::text::string_views(params@).subrange(
                1,
                params@.len() as int,
            ));
            assert(seq![type_views(param_types@)[0]] + type_views(param_types@).subrange(
                1,
                param_types@.len() as int,
            ) =~= type_views(param_types@));
            assert(seq![crate::text::string_views(params@)[0]] + crate::text::string_views(
                params@,
            ).subrange(1, params@.len() as int) =~= crate::text::string_views(params@));
        }
        Ok((param_types, params))
    }

    /// Parses the rest of a function declaration, after its name.
    #[verifier::rlimit(100)]
    #[verifier::spinoff_prover]
    fn finish_parsing_function_declaration(
        &mut self,
        ret_type: Type,
        storage_class: Option<StorageClass>,
        name: String,
    ) -> (r: Result<FunctionDeclaration<UnTypedExp>, CompileError>)
        requires
            old(self).wf(),
        ensures
            final(self).wf(),
            final(self)@.0 == old(self)@.0,
            final(self).remaining() <= old(self).remaining(),
            match r {
                Ok(fd) => spec_finish_function_declaration(
                    old(self)@.0,
                    old(self)@.1,
                    ret_type@,
                    storage_class,
                    name@,
                ) == Ok::<(FunctionDeclarationV<UnTypedExpV>, int), CompileErrorV>(
                    (fd@, final(self)@.1),
                ) && final(self).remaining() < old(self).remaining(),
                Err(e) => spec_finish_function_declaration(
                    old(self)@.0,
                    old(self)@.1,
                    ret_type@,
                    storage_class,
                    name@,
                ) == Err::<(FunctionDeclarationV<UnTypedExpV>, int), CompileErrorV>(e@),
            },
        decreases old(self).remaining(), 8int,
    {
        self.eat_token(&tokens::T::OpenParen)?;
        let next = self.current_token();
        let (param_types, params): (Vec<Type>, Vec<String>) = if matches!(next, tokens::T::KWVoid) {
            self.advance();
            let pts: Vec<Type> = Vec::new();
            let names: Vec<String> = Vec::new();
            proof {
                crate::types::lemma_type_views(pts@);
                crate::text::lemma_string_views(names@);
                assert(type_views(pts@) =~= Seq::<TypeV>::empty());
                assert(crate::text::string_views(names@) =~= Seq::<Seq<char>>::empty());
            }
            (pts, names)
        } else {
            self.parse_param_list()?
        };
        self.eat_token(&tokens::T::CloseParen)?;
        let next2 = self.current_token();
        match next2 {
            tokens::T::OpenBrace => {
                let b = self.parse_block()?;
                Ok(
                    FunctionDeclaration {
                        name,
                        fun_type: Type::FunType { param_types, ret_type: Box::new(ret_type) },
                        params,
                        body: Some(b),
                        storage_class,
                    },
                )
            },
            tokens::T::Semicolon => {
                self.advance();
                Ok(
                    FunctionDeclaration {
                        name,
                        fun_type: Type::FunType { param_types, ret_type: Box::new(ret_type) },
                        params,
                        body: None,
                        storage_class,
                    },
                )
            },
            other => Err(CompileError::UnexpectedToken(other)),
        }
    }

    /// Parses the rest of a variable declaration, after its name.
    fn finish_parsing_variable_declaration(
        &mut self,
        var_type: Type,
        storage_class: Option<StorageClass>,
        name: String,
    ) -> (r: Result<VariableDeclaration<UnTypedExp>, CompileError>)
        requires
            old(self).wf(),
        ensures
            final(self).wf(),
            final(self)@.0 == old(self)@.0,
            final(self).remaining() <= old(self).remaining(),
            match r {
                Ok(vd) => spec_finish_variable_declaration(
                    old(self)@.0,
                    old(self)@.1,
                    var_type@,
                    storage_class,
                    name@,
                ) == Ok::<(VariableDeclarationV<UnTypedExpV>, int), CompileErrorV>(
                    (vd@, final(self)@.1),
                ) && final(self).remaining() < old(self).remaining(),
                Err(e) => spec_finish_variable_declaration(
                    old(self)@.0,
                    old(self)@.1,
                    var_type@,
                    storage_class,
                    name@,
                ) == Err::<(VariableDeclarationV<UnTypedExpV>, int), CompileErrorV>(e@),
            },
        decreases old(self).remaining(), 8int,
    {
        let t = self.current_token();
        match t {
            tokens::T::Semicolon => {
                self.advance();
                Ok(VariableDeclaration { name, var_type, init: None, storage_class })
            },
            tokens::T::EqualSign => {
                self.eat_token(&tokens::T::EqualSign)?;
                let init = self.parse_expression(0)?;
                self.eat_token(&tokens::T::Semicolon)?;
                Ok(VariableDeclaration { name, var_type, init: Some(init), storage_class })
            },
            other => Err(CompileError::UnexpectedToken(other)),
        }
    }

    /// Parses one declaration.
    #[verifier::rlimit(100)]
    fn parse_declaration(&mut self) -> (r: Result<Declaration<UnTypedExp>, CompileError>)
        requires
            old(self).wf(),
        ensures
            final(self).wf(),
            final(self)@.0 == old(self)@.0,
            final(self).remaining() <= old(self).remaining(),
            match r {
                Ok(x) => spec_parse_declaration(old(self)@.0, old(self)@.1) == Ok::<
                    (DeclarationV<UnTypedExpV>, int),
                    CompileErrorV,
                >((x@, final(self)@.1)) && final(self).remaining() < old(self).remaining(),
                Err(e) => spec_parse_declaration(old(self)@.0, old(self)@.1) == Err::<
                    (DeclarationV<UnTypedExpV>, int),
                    CompileErrorV,
                >(e@),
            },
        decreases old(self).remaining(), 6int,
    {
        let specifiers = self.parse_specifier_list();
        if specifiers.len() == 0 {
            proof {
                lemma_token_views(specifiers@);
            }
            return Err(CompileError::BadSpecifiers);
        }
        proof {
            lemma_token_views(specifiers@);
        }
        let (ty, storage_class) = self.parse_type_and_storage_class(specifiers)?;
        let name = self.parse_id()?;
        let next = self.current_token();
        if matches!(next, tokens::T::OpenParen) {
            let fd = self.finish_parsing_function_declaration(ty, storage_class, name)?;
            Ok(Declaration::FunDecl(fd))
        } else {
            let vd = self.finish_parsing_variable_declaration(ty, storage_class, name)?;
            Ok(Declaration::VarDecl(vd))
        }
    }

    /// Parses a whole translation unit, exactly as [`spec_parse`] says.
    #[verifier::rlimit(100)]
    pub fn parse(&mut self) -> (r: Result<UntypedProgType, CompileError>)
        requires
            old(self).wf(),
        ensures
            final(self).wf(),
            match r {
                Ok(tree) => spec_parse_declarations(old(self)@.0, old(self)@.1) matches Ok(
                    (ds, _),
                ) && tree@ == ProgTypeV::<UnTypedExpV>::Program(ds),
                Err(e) => spec_parse_declarations(old(self)@.0, old(self)@.1) == Err::<
                    (Seq<DeclarationV<UnTypedExpV>>, int),
                    CompileErrorV,
                >(e@),
            },
    {
        let ghost s = self@.0;
        let ghost i0 = self@.1;
        let mut decls: Vec<Declaration<UnTypedExp>> = Vec::new();
        proof {
            crate::ast::lemma_declaration_views(decls@);
            assert(crate::ast::declaration_views(decls@) =~= Seq::<
                DeclarationV<UnTypedExpV>,
            >::empty());
        }
        while !matches!(self.current_token(), tokens::T::Eof)
            invariant
                self.wf(),
                self@.0 == s,
                i0 <= self@.1 <= s.len(),
                (match spec_parse_declarations(s, self@.1) {
                    Ok((more, k)) => spec_parse_declarations(s, i0) == Ok::<
                        (Seq<DeclarationV<UnTypedExpV>>, int),
                        CompileErrorV,
                    >((crate::ast::declaration_views(decls@) + more, k)),
                    Err(e) => spec_parse_declarations(s, i0) == Err::<
                        (Seq<DeclarationV<UnTypedExpV>>, int),
                        CompileErrorV,
                    >(e),
                }),
            decreases self.remaining(),
        {
            let ghost pos_before = self@.1;
            let d = match self.parse_declaration() {
                Ok(decl) => decl,
                Err(e) => {
                    return Err(e);
                },
            };
            let ghost decls_before = decls@;
            decls.push(d);
            proof {
                crate::ast::lemma_declaration_views(decls@);
                crate::ast::lemma_declaration_views(decls_before);
                assert(crate::ast::declaration_views(decls@) =~= crate::ast::declaration_views(
                    decls_before,
                ).push(decls@[decls@.len() - 1]@));
                match spec_parse_declarations(s, self@.1) {
                    Ok((more, k)) => {
                        assert(spec_parse_declarations(s, pos_before) == Ok::<
                            (Seq<DeclarationV<UnTypedExpV>>, int),
                            CompileErrorV,
                        >((seq![decls@[decls@.len() - 1]@] + more, k)));
                        assert(crate::ast::declaration_views(decls_before) + (seq![
                            decls@[decls@.len() - 1]@,
                        ] + more) =~= crate::ast::declaration_views(decls@) + more);
                    },
                    Err(e) => {},
                }
            }
        }
        proof {
            assert(spec_parse_declarations(s, self@.1) == Ok::<
                (Seq<DeclarationV<UnTypedExpV>>, int),
                CompileErrorV,
            >((Seq::<DeclarationV<UnTypedExpV>>::empty(), self@.1)));
            assert(crate::ast::declaration_views(decls@) + Seq::<
                DeclarationV<UnTypedExpV>,
            >::empty() =~= crate::ast::declaration_views(decls@));
        }
        Ok(ProgType::Program(decls))
    }
}

} // verus!
