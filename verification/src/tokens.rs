//! The tokens of the source language.

use crate::text::int_chars;
use vstd::prelude::*;

verus! {

/// A lexed token: keywords, identifiers, integer constants, punctuation
/// and operators, with a terminating end-of-file marker.
#[derive(Debug)]
pub enum T {
    Identifier(String),
    ConstInt(i32),
    ConstLong(i64),
    KWInt,
    KWLong,
    KWReturn,
    KWVoid,
    KWIf,
    KWElse,
    KWDo,
    KWWhile,
    KWFor,
    KWBreak,
    KWContinue,
    KWStatic,
    KWExtern,
    OpenBrace,
    CloseBrace,
    OpenParen,
    CloseParen,
    Semicolon,
    Comma,
    QuestionMark,
    Colon,
    EqualSign,
    DoubleEqual,
    NotEqual,
    LessThan,
    LessOrEqual,
    GreaterThan,
    GreaterOrEqual,
    Plus,
    Hyphen,
    DoubleHyphen,
    Star,
    Slash,
    Percent,
    Tilde,
    Bang,
    LogicalAnd,
    LogicalOr,
    Eof,
}

/// The mathematical model of a token, with identifier names as character
/// sequences.
pub enum TokenV {
    Identifier(Seq<char>),
    ConstInt(i32),
    ConstLong(i64),
    KWInt,
    KWLong,
    KWReturn,
    KWVoid,
    KWIf,
    KWElse,
    KWDo,
    KWWhile,
    KWFor,
    KWBreak,
    KWContinue,
    KWStatic,
    KWExtern,
    OpenBrace,
    CloseBrace,
    OpenParen,
    CloseParen,
    Semicolon,
    Comma,
    QuestionMark,
    Colon,
    EqualSign,
    DoubleEqual,
    NotEqual,
    LessThan,
    LessOrEqual,
    GreaterThan,
    GreaterOrEqual,
    Plus,
    Hyphen,
    DoubleHyphen,
    Star,
    Slash,
    Percent,
    Tilde,
    Bang,
    LogicalAnd,
    LogicalOr,
    Eof,
}

impl View for T {
    type V = TokenV;

    open spec fn view(&self) -> TokenV {
        match self {
            T::Identifier(s) => TokenV::Identifier(s@),
            T::ConstInt(i) => TokenV::ConstInt(*i),
            T::ConstLong(i) => TokenV::ConstLong(*i),
            T::KWInt => TokenV::KWInt,
            T::KWLong => TokenV::KWLong,
            T::KWReturn => TokenV::KWReturn,
            T::KWVoid => TokenV::KWVoid,
            T::KWIf => TokenV::KWIf,
            T::KWElse => TokenV::KWElse,
            T::KWDo => TokenV::KWDo,
            T::KWWhile => TokenV::KWWhile,
            T::KWFor => TokenV::KWFor,
            T::KWBreak => TokenV::KWBreak,
            T::KWContinue => TokenV::KWContinue,
            T::KWStatic => TokenV::KWStatic,
            T::KWExtern => TokenV::KWExtern,
            T::OpenBrace => TokenV::OpenBrace,
            T::CloseBrace => TokenV::CloseBrace,
            T::OpenParen => TokenV::OpenParen,
            T::CloseParen => TokenV::CloseParen,
            T::Semicolon => TokenV::Semicolon,
            T::Comma => TokenV::Comma,
            T::QuestionMark => TokenV::QuestionMark,
            T::Colon => TokenV::Colon,
            T::EqualSign => TokenV::EqualSign,
            T::DoubleEqual => TokenV::DoubleEqual,
            T::NotEqual => TokenV::NotEqual,
            T::LessThan => TokenV::LessThan,
            T::LessOrEqual => TokenV::LessOrEqual,
            T::GreaterThan => TokenV::GreaterThan,
            T::GreaterOrEqual => TokenV::GreaterOrEqual,
            T::Plus => TokenV::Plus,
            T::Hyphen => TokenV::Hyphen,
            T::DoubleHyphen => TokenV::DoubleHyphen,
            T::Star => TokenV::Star,
            T::Slash => TokenV::Slash,
            T::Percent => TokenV::Percent,
            T::Tilde => TokenV::Tilde,
            T::Bang => TokenV::Bang,
            T::LogicalAnd => TokenV::LogicalAnd,
            T::LogicalOr => TokenV::LogicalOr,
            T::Eof => TokenV::Eof,
        }
    }
}

impl Clone for T {
    fn clone(&self) -> (r: Self)
        ensures
            r@ == self@,
    {
        match self {
            T::Identifier(s) => T::Identifier(s.clone()),
            T::ConstInt(i) => T::ConstInt(*i),
            T::ConstLong(i) => T::ConstLong(*i),
            T::KWInt => T::KWInt,
            T::KWLong => T::KWLong,
            T::KWReturn => T::KWReturn,
            T::KWVoid => T::KWVoid,
            T::KWIf => T::KWIf,
            T::KWElse => T::KWElse,
            T::KWDo => T::KWDo,
            T::KWWhile => T::KWWhile,
            T::KWFor => T::KWFor,
            T::KWBreak => T::KWBreak,
            T::KWContinue => T::KWContinue,
            T::KWStatic => T::KWStatic,
            T::KWExtern => T::KWExtern,
            T::OpenBrace => T::OpenBrace,
            T::CloseBrace => T::CloseBrace,
            T::OpenParen => T::OpenParen,
            T::CloseParen => T::CloseParen,
            T::Semicolon => T::Semicolon,
            T::Comma => T::Comma,
            T::QuestionMark => T::QuestionMark,
            T::Colon => T::Colon,
            T::EqualSign => T::EqualSign,
            T::DoubleEqual => T::DoubleEqual,
            T::NotEqual => T::NotEqual,
            T::LessThan => T::LessThan,
            T::LessOrEqual => T::LessOrEqual,
            T::GreaterThan => T::GreaterThan,
            T::GreaterOrEqual => T::GreaterOrEqual,
            T::Plus => T::Plus,
            T::Hyphen => T::Hyphen,
            T::DoubleHyphen => T::DoubleHyphen,
            T::Star => T::Star,
            T::Slash => T::Slash,
            T::Percent => T::Percent,
            T::Tilde => T::Tilde,
            T::Bang => T::Bang,
            T::LogicalAnd => T::LogicalAnd,
            T::LogicalOr => T::LogicalOr,
            T::Eof => T::Eof,
        }
    }
}

/// The model of a token sequence, element by element.
pub open spec fn token_views(ts: Seq<T>) -> Seq<TokenV>
    decreases ts,
{
    if ts.len() == 0 {
        Seq::empty()
    } else {
        token_views(ts.drop_last()).push(ts.last()@)
    }
}

/// `token_views` maps the sequence pointwise.
pub broadcast proof fn lemma_token_views(ts: Seq<T>)
    ensures
        #[trigger] token_views(ts).len() == ts.len(),
        forall|i: int| 0 <= i < ts.len() ==> token_views(ts)[i] == ts[i]@,
    decreases ts.len(),
{
    if ts.len() > 0 {
        lemma_token_views(ts.drop_last());
        assert(forall|i: int|
            0 <= i < ts.len() - 1 ==> token_views(ts)[i] == token_views(ts.drop_last())[i]);
        assert(forall|i: int| 0 <= i < ts.len() - 1 ==> ts.drop_last()[i] == ts[i]);
    }
}

/// The canonical spelling of a token; the end-of-file marker spells as
/// the empty sequence.
pub open spec fn token_chars(t: TokenV) -> Seq<char> {
    match t {
        TokenV::Identifier(s) => s,
        TokenV::ConstInt(i) => int_chars(i as int),
        TokenV::ConstLong(i) => int_chars(i as int) + "L"@,
        TokenV::KWInt => "int"@,
        TokenV::KWLong => "long"@,
        TokenV::KWReturn => "return"@,
        TokenV::KWVoid => "void"@,
        TokenV::KWIf => "if"@,
        TokenV::KWElse => "else"@,
        TokenV::KWDo => "do"@,
        TokenV::KWWhile => "while"@,
        TokenV::KWFor => "for"@,
        TokenV::KWBreak => "break"@,
        TokenV::KWContinue => "continue"@,
        TokenV::KWStatic => "static"@,
        TokenV::KWExtern => "extern"@,
        TokenV::OpenBrace => "{"@,
        TokenV::CloseBrace => "}"@,
        TokenV::OpenParen => "("@,
        TokenV::CloseParen => ")"@,
        TokenV::Semicolon => ";"@,
        TokenV::Comma => ","@,
        TokenV::QuestionMark => "?"@,
        TokenV::Colon => ":"@,
        TokenV::EqualSign => "="@,
        TokenV::DoubleEqual => "=="@,
        TokenV::NotEqual => "!="@,
        TokenV::LessThan => "<"@,
        TokenV::LessOrEqual => "<="@,
        TokenV::GreaterThan => ">"@,
        TokenV::GreaterOrEqual => ">="@,
        TokenV::Plus => "+"@,
        TokenV::Hyphen => "-"@,
        TokenV::DoubleHyphen => "--"@,
        TokenV::Star => "*"@,
        TokenV::Slash => "/"@,
        TokenV::Percent => "%"@,
        TokenV::Tilde => "~"@,
        TokenV::Bang => "!"@,
        TokenV::LogicalAnd => "&&"@,
        TokenV::LogicalOr => "||"@,
        TokenV::Eof => Seq::empty(),
    }
}

/// Renders the canonical spelling of one token.
pub fn spell_token(t: &T) -> (s: String)
    ensures
        s@ == token_chars(t@),
{
    match t {
        T::Identifier(name) => name.clone(),
        T::ConstInt(i) => crate::text::i64_to_string(*i as i64),
        T::ConstLong(i) => {
            proof {
                reveal_strlit("L");
            }
            let mut s = crate::text::i64_to_string(*i);
            s.append("L");
            s
        },
        T::KWInt => {
            proof {
                reveal_strlit("int");
            }
            String::from_str("int")
        },
        T::KWLong => {
            proof {
                reveal_strlit("long");
            }
            String::from_str("long")
        },
        T::KWReturn => {
            proof {
                reveal_strlit("return");
            }
            String::from_str("return")
        },
        T::KWVoid => {
            proof {
                reveal_strlit("void");
            }
            String::from_str("void")
        },
        T::KWIf => {
            proof {
                reveal_strlit("if");
            }
            String::from_str("if")
        },
        T::KWElse => {
            proof {
                reveal_strlit("else");
            }
            String::from_str("else")
        },
        T::KWDo => {
            proof {
                reveal_strlit("do");
            }
            String::from_str("do")
        },
        T::KWWhile => {
            proof {
                reveal_strlit("while");
            }
            String::from_str("while")
        },
        T::KWFor => {
            proof {
                reveal_strlit("for");
            }
            String::from_str("for")
        },
        T::KWBreak => {
            proof {
                reveal_strlit("break");
            }
            String::from_str("break")
        },
        T::KWContinue => {
            proof {
                reveal_strlit("continue");
            }
            String::from_str("continue")
        },
        T::KWStatic => {
            proof {
                reveal_strlit("static");
            }
            String::from_str("static")
        },
        T::KWExtern => {
            proof {
                reveal_strlit("extern");
            }
            String::from_str("extern")
        },
        T::OpenBrace => {
            proof {
                reveal_strlit("{");
            }
            String::from_str("{")
        },
        T::CloseBrace => {
            proof {
                reveal_strlit("}");
            }
            String::from_str("}")
        },
        T::OpenParen => {
            proof {
                reveal_strlit("(");
            }
            String::from_str("(")
        },
        T::CloseParen => {
            proof {
                reveal_strlit(")");
            }
            String::from_str(")")
        },
        T::Semicolon => {
            proof {
                reveal_strlit(";");
            }
            String::from_str(";")
        },
        T::Comma => {
            proof {
                reveal_strlit(",");
            }
            String::from_str(",")
        },
        T::QuestionMark => {
            proof {
                reveal_strlit("?");
            }
            String::from_str("?")
        },
        T::Colon => {
            proof {
                reveal_strlit(":");
            }
            String::from_str(":")
        },
        T::EqualSign => {
            proof {
                reveal_strlit("=");
            }
            String::from_str("=")
        },
        T::DoubleEqual => {
            proof {
                reveal_strlit("==");
            }
            String::from_str("==")
        },
        T::NotEqual => {
            proof {
                reveal_strlit("!=");
            }
            String::from_str("!=")
        },
        T::LessThan => {
            proof {
                reveal_strlit("<");
            }
            String::from_str("<")
        },
        T::LessOrEqual => {
            proof {
                reveal_strlit("<=");
            }
            String::from_str("<=")
        },
        T::GreaterThan => {
            proof {
                reveal_strlit(">");
            }
            String::from_str(">")
        },
        T::GreaterOrEqual => {
            proof {
                reveal_strlit(">=");
            }
            String::from_str(">=")
        },
        T::Plus => {
            proof {
                reveal_strlit("+");
            }
            String::from_str("+")
        },
        T::Hyphen => {
            proof {
                reveal_strlit("-");
            }
            String::from_str("-")
        },
        T::DoubleHyphen => {
            proof {
                reveal_strlit("--");
            }
            String::from_str("--")
        },
        T::Star => {
            proof {
                reveal_strlit("*");
            }
            String::from_str("*")
        },
        T::Slash => {
            proof {
                reveal_strlit("/");
            }
            String::from_str("/")
        },
        T::Percent => {
            proof {
                reveal_strlit("%");
            }
            String::from_str("%")
        },
        T::Tilde => {
            proof {
                reveal_strlit("~");
            }
            String::from_str("~")
        },
        T::Bang => {
            proof {
                reveal_strlit("!");
            }
            String::from_str("!")
        },
        T::LogicalAnd => {
            proof {
                reveal_strlit("&&");
            }
            String::from_str("&&")
        },
        T::LogicalOr => {
            proof {
                reveal_strlit("||");
            }
            String::from_str("||")
        },
        T::Eof => String::new(),
    }
}

/// Decides structural equality of two tokens.
pub fn token_eq(a: &T, b: &T) -> (r: bool)
    ensures
        r == (a@ == b@),
{
    match (a, b) {
        (T::Identifier(x), T::Identifier(y)) => *x == *y,
        (T::ConstInt(x), T::ConstInt(y)) => *x == *y,
        (T::ConstLong(x), T::ConstLong(y)) => *x == *y,
        (T::KWInt, T::KWInt) => true,
        (T::KWLong, T::KWLong) => true,
        (T::KWReturn, T::KWReturn) => true,
        (T::KWVoid, T::KWVoid) => true,
        (T::KWIf, T::KWIf) => true,
        (T::KWElse, T::KWElse) => true,
        (T::KWDo, T::KWDo) => true,
        (T::KWWhile, T::KWWhile) => true,
        (T::KWFor, T::KWFor) => true,
        (T::KWBreak, T::KWBreak) => true,
        (T::KWContinue, T::KWContinue) => true,
        (T::KWStatic, T::KWStatic) => true,
        (T::KWExtern, T::KWExtern) => true,
        (T::OpenBrace, T::OpenBrace) => true,
        (T::CloseBrace, T::CloseBrace) => true,
        (T::OpenParen, T::OpenParen) => true,
        (T::CloseParen, T::CloseParen) => true,
        (T::Semicolon, T::Semicolon) => true,
        (T::Comma, T::Comma) => true,
        (T::QuestionMark, T::QuestionMark) => true,
        (T::Colon, T::Colon) => true,
        (T::EqualSign, T::EqualSign) => true,
        (T::DoubleEqual, T::DoubleEqual) => true,
        (T::NotEqual, T::NotEqual) => true,
        (T::LessThan, T::LessThan) => true,
        (T::LessOrEqual, T::LessOrEqual) => true,
        (T::GreaterThan, T::GreaterThan) => true,
        (T::GreaterOrEqual, T::GreaterOrEqual) => true,
        (T::Plus, T::Plus) => true,
        (T::Hyphen, T::Hyphen) => true,
        (T::DoubleHyphen, T::DoubleHyphen) => true,
        (T::Star, T::Star) => true,
        (T::Slash, T::Slash) => true,
        (T::Percent, T::Percent) => true,
        (T::Tilde, T::Tilde) => true,
        (T::Bang, T::Bang) => true,
        (T::LogicalAnd, T::LogicalAnd) => true,
        (T::LogicalOr, T::LogicalOr) => true,
        (T::Eof, T::Eof) => true,
        _ => false,
    }
}

} // verus!
