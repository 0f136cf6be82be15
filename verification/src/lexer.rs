//! The lexer: bytes to tokens.
//!
//! The token grammar: whitespace is skipped; identifiers and keywords are
//! the longest run of letters, digits and underscores starting with a
//! letter or underscore, keywords recognized by exact spelling; constants
//! are decimal digit runs with an optional `l`/`L` suffix marking `long`,
//! rejected when they run into an identifier character or overflow their
//! width; two-character operators win over their one-character prefixes.
//! [`spec_next_token`] states the whole grammar, and every scan is proved
//! equal to it.

use crate::errors::{CompileError, CompileErrorV};
use crate::text::is_word_byte;
use crate::tokens;
use crate::tokens::{lemma_token_views, token_views, TokenV};
use vstd::prelude::*;

verus! {

/// Whether a byte can start an identifier or keyword.
pub open spec fn is_alpha_byte(b: u8) -> bool {
    b == 95 || (65 <= b <= 90) || (97 <= b <= 122)
}

/// Whether a byte is a decimal digit.
pub open spec fn is_digit_byte(b: u8) -> bool {
    48 <= b <= 57
}

/// Whether a byte is whitespace: a space, a tab, or a line feed.
pub open spec fn is_space_byte(b: u8) -> bool {
    b == 32 || b == 10 || b == 9
}

/// The end of the longest run of identifier bytes starting at `i`.
pub open spec fn word_run_end(s: Seq<u8>, i: int) -> int
    decreases s.len() - i when 0 <= i <= s.len()
{
    if 0 <= i < s.len() && is_word_byte(s[i]) {
        word_run_end(s, i + 1)
    } else {
        i
    }
}

/// The end of the longest run of digits starting at `i`.
pub open spec fn digit_run_end(s: Seq<u8>, i: int) -> int
    decreases s.len() - i when 0 <= i <= s.len()
{
    if 0 <= i < s.len() && is_digit_byte(s[i]) {
        digit_run_end(s, i + 1)
    } else {
        i
    }
}

/// The characters of the bytes in `[i, j)`.
pub open spec fn bytes_chars(s: Seq<u8>, i: int, j: int) -> Seq<char>
    decreases j - i,
{
    if i < j {
        bytes_chars(s, i, j - 1).push(s[j - 1] as char)
    } else {
        Seq::empty()
    }
}

/// The numeric value of the digit run `[i, j)`.
pub open spec fn digits_value(s: Seq<u8>, i: int, j: int) -> int
    decreases j - i,
{
    if i < j {
        digits_value(s, i, j - 1) * 10 + (s[j - 1] - 48)
    } else {
        0
    }
}

/// A word run ends within the input, past its start when it starts on a
/// word byte, and on a non-word byte or the end of the input.
pub proof fn lemma_word_run_end(s: Seq<u8>, i: int)
    requires
        0 <= i <= s.len(),
    ensures
        i <= word_run_end(s, i) <= s.len(),
        i < s.len() && is_word_byte(s[i]) ==> word_run_end(s, i) > i,
        forall|k: int| i <= k < word_run_end(s, i) ==> is_word_byte(#[trigger] s[k]),
        word_run_end(s, i) < s.len() ==> !is_word_byte(s[word_run_end(s, i)]),
    decreases s.len() - i,
{
    if 0 <= i < s.len() && is_word_byte(s[i]) {
        lemma_word_run_end(s, i + 1);
    }
}

/// A digit run ends within the input, past its start when it starts on a
/// digit, and on a non-digit or the end of the input.
pub proof fn lemma_digit_run_end(s: Seq<u8>, i: int)
    requires
        0 <= i <= s.len(),
    ensures
        i <= digit_run_end(s, i) <= s.len(),
        i < s.len() && is_digit_byte(s[i]) ==> digit_run_end(s, i) > i,
        forall|k: int| i <= k < digit_run_end(s, i) ==> is_digit_byte(#[trigger] s[k]),
        digit_run_end(s, i) < s.len() ==> !is_digit_byte(s[digit_run_end(s, i)]),
    decreases s.len() - i,
{
    if 0 <= i < s.len() && is_digit_byte(s[i]) {
        lemma_digit_run_end(s, i + 1);
    }
}

/// The token an identifier's text stands for.
pub open spec fn spec_id_token(text: Seq<char>) -> TokenV {
    if text == "int"@ {
        TokenV::KWInt
    } else if text == "long"@ {
        TokenV::KWLong
    } else if text == "return"@ {
        TokenV::KWReturn
    } else if text == "void"@ {
        TokenV::KWVoid
    } else if text == "if"@ {
        TokenV::KWIf
    } else if text == "else"@ {
        TokenV::KWElse
    } else if text == "do"@ {
        TokenV::KWDo
    } else if text == "while"@ {
        TokenV::KWWhile
    } else if text == "for"@ {
        TokenV::KWFor
    } else if text == "break"@ {
        TokenV::KWBreak
    } else if text == "continue"@ {
        TokenV::KWContinue
    } else if text == "static"@ {
        TokenV::KWStatic
    } else if text == "extern"@ {
        TokenV::KWExtern
    } else {
        TokenV::Identifier(text)
    }
}

/// The constant token starting at the digit at `i`: its digit run's
/// value, tagged `long` exactly when an `l`/`L` suffix follows; malformed
/// when an identifier character follows the constant or the value does
/// not fit the tagged width.
pub open spec fn spec_scan_number(s: Seq<u8>, i: int) -> Result<(TokenV, int), CompileErrorV> {
    let j = digit_run_end(s, i);
    let has_suffix = j < s.len() && (s[j] == 108 || s[j] == 76);
    let k = if has_suffix {
        j + 1
    } else {
        j
    };
    let v = digits_value(s, i, j);
    if (k < s.len() && is_word_byte(s[k])) || v > i64::MAX {
        Err(CompileErrorV::MalformedNumber(bytes_chars(s, i, j)))
    } else if has_suffix {
        Ok((TokenV::ConstLong(v as i64), k))
    } else if v > 0x7fff_ffff {
        Err(CompileErrorV::MalformedNumber(bytes_chars(s, i, j)))
    } else {
        Ok((TokenV::ConstInt(v as i32), k))
    }
}

/// The next token from position `i`, and the position just past it:
/// whitespace skipped, end of input giving the end-of-file marker,
/// identifiers and constants by longest match, two-character operators
/// before their one-character prefixes, and an error on any other byte.
pub open spec fn spec_next_token(s: Seq<u8>, i: int) -> Result<(TokenV, int), CompileErrorV>
    decreases s.len() - i when 0 <= i <= s.len()
{
    if i < 0 || i >= s.len() {
        Ok((TokenV::Eof, i))
    } else {
        let b = s[i];
        if is_alpha_byte(b) {
            Ok((spec_id_token(bytes_chars(s, i, word_run_end(s, i))), word_run_end(s, i)))
        } else if is_digit_byte(b) {
            spec_scan_number(s, i)
        } else if is_space_byte(b) {
            spec_next_token(s, i + 1)
        } else if b == 37 {
            Ok((TokenV::Percent, i + 1))
        } else if b == 59 {
            Ok((TokenV::Semicolon, i + 1))
        } else if b == 43 {
            Ok((TokenV::Plus, i + 1))
        } else if b == 42 {
            Ok((TokenV::Star, i + 1))
        } else if b == 123 {
            Ok((TokenV::OpenBrace, i + 1))
        } else if b == 125 {
            Ok((TokenV::CloseBrace, i + 1))
        } else if b == 40 {
            Ok((TokenV::OpenParen, i + 1))
        } else if b == 41 {
            Ok((TokenV::CloseParen, i + 1))
        } else if b == 126 {
            Ok((TokenV::Tilde, i + 1))
        } else if b == 63 {
            Ok((TokenV::QuestionMark, i + 1))
        } else if b == 58 {
            Ok((TokenV::Colon, i + 1))
        } else if b == 47 {
            Ok((TokenV::Slash, i + 1))
        } else if b == 44 {
            Ok((TokenV::Comma, i + 1))
        } else if b == 61 {
            if i + 1 < s.len() && s[i + 1] == 61 {
                Ok((TokenV::DoubleEqual, i + 2))
            } else {
                Ok((TokenV::EqualSign, i + 1))
            }
        } else if b == 38 {
            if i + 1 < s.len() && s[i + 1] == 38 {
                Ok((TokenV::LogicalAnd, i + 2))
            } else {
                Err(CompileErrorV::UnknownCharacter(b))
            }
        } else if b == 124 {
            if i + 1 < s.len() && s[i + 1] == 124 {
                Ok((TokenV::LogicalOr, i + 2))
            } else {
                Err(CompileErrorV::UnknownCharacter(b))
            }
        } else if b == 60 {
            if i + 1 < s.len() && s[i + 1] == 61 {
                Ok((TokenV::LessOrEqual, i + 2))
            } else {
                Ok((TokenV::LessThan, i + 1))
            }
        } else if b == 62 {
            if i + 1 < s.len() && s[i + 1] == 61 {
                Ok((TokenV::GreaterOrEqual, i + 2))
            } else {
                Ok((TokenV::GreaterThan, i + 1))
            }
        } else if b == 33 {
            if i + 1 < s.len() && s[i + 1] == 61 {
                Ok((TokenV::NotEqual, i + 2))
            } else {
                Ok((TokenV::Bang, i + 1))
            }
        } else if b == 45 {
            if i + 1 < s.len() && s[i + 1] == 45 {
                Ok((TokenV::DoubleHyphen, i + 2))
            } else {
                Ok((TokenV::Hyphen, i + 1))
            }
        } else {
            Err(CompileErrorV::UnknownCharacter(b))
        }
    }
}

/// A scanned token other than the end-of-file marker lies within the
/// input and past its start.
pub proof fn lemma_next_token_progress(s: Seq<u8>, i: int)
    requires
        0 <= i <= s.len(),
    ensures
        spec_next_token(s, i) matches Ok((t, j)) ==> i <= j <= s.len() && (!(t is Eof) ==> j > i),
    decreases s.len() - i,
{
    if 0 <= i < s.len() {
        if is_alpha_byte(s[i]) {
            lemma_word_run_end(s, i);
        } else if is_digit_byte(s[i]) {
            lemma_digit_run_end(s, i);
        } else if is_space_byte(s[i]) {
            lemma_next_token_progress(s, i + 1);
        }
    }
}

/// The token stream from position `i`: tokens in order up to and
/// including the end-of-file marker.
pub open spec fn spec_lex_from(s: Seq<u8>, i: int) -> Result<Seq<TokenV>, CompileErrorV>
    decreases s.len() - i when 0 <= i <= s.len()
{
    match spec_next_token(s, i) {
        Err(e) => Err(e),
        Ok((t, j)) => {
            if t is Eof {
                Ok(seq![TokenV::Eof])
            } else if i < j <= s.len() {
                match spec_lex_from(s, j) {
                    Err(e) => Err(e),
                    Ok(rest) => Ok(seq![t] + rest),
                }
            } else {
                Err(CompileErrorV::Internal)
            }
        },
    }
}

/// A lexer over a byte buffer.
pub struct Lexer {
    input: Vec<u8>,
    pos: usize,
}

impl View for Lexer {
    type V = (Seq<u8>, int);

    closed spec fn view(&self) -> (Seq<u8>, int) {
        (self.input@, self.pos as int)
    }
}

impl Lexer {
    /// The cursor never runs past the end of the input.
    pub open spec fn wf(&self) -> bool {
        0 <= self@.1 <= self@.0.len()
    }

    /// A lexer over the given bytes, starting at their beginning.
    pub fn new(input: Vec<u8>) -> (l: Lexer)
        ensures
            l.wf(),
            l@ == (input@, 0int),
    {
        Lexer { input, pos: 0 }
    }

    /// Scans an identifier or keyword.
    fn identifier(&mut self) -> (t: tokens::T)
        requires
            old(self).wf(),
            old(self)@.1 < old(self)@.0.len(),
            is_alpha_byte(old(self)@.0[old(self)@.1]),
        ensures
            final(self).wf(),
            final(self)@.0 == old(self)@.0,
            final(self)@.1 == word_run_end(old(self)@.0, old(self)@.1),
            t@ == spec_id_token(bytes_chars(old(self)@.0, old(self)@.1, final(self)@.1)),
    {
        let ghost s = self.input@;
        let ghost i0 = self.pos as int;
        let n = self.input.len();
        proof {
            lemma_word_run_end(s, i0);
        }
        let mut buffer = String::new();
        let first = self.input[self.pos];
        buffer.append(crate::text::byte_str(first));
        self.pos = self.pos + 1;
        proof {
            assert(bytes_chars(s, i0, i0) =~= Seq::<char>::empty());
            assert(bytes_chars(s, i0, i0 + 1) =~= seq![s[i0] as char]);
            assert(buffer@ =~= bytes_chars(s, i0, self.pos as int));
        }
        while self.pos < self.input.len() && (self.input[self.pos] == 95 || (self.input[self.pos]
            >= 48 && self.input[self.pos] <= 57) || (self.input[self.pos] >= 65
            && self.input[self.pos] <= 90) || (self.input[self.pos] >= 97 && self.input[self.pos]
            <= 122))
            invariant
                self.wf(),
                self.input@ == s,
                i0 < self.pos <= s.len(),
                forall|k: int| i0 <= k < self.pos ==> is_word_byte(#[trigger] s[k]),
                word_run_end(s, i0) == word_run_end(s, self.pos as int),
                buffer@ == bytes_chars(s, i0, self.pos as int),
            decreases self.input@.len() - self.pos,
        {
            let b = self.input[self.pos];
            buffer.append(crate::text::byte_str(b));
            self.pos = self.pos + 1;
            proof {
                assert(buffer@ =~= bytes_chars(s, i0, self.pos as int));
            }
        }
        proof {
            assert(word_run_end(s, self.pos as int) == self.pos as int);
        }
        crate::lex::id_to_tok(buffer)
    }

    /// Scans an integer constant.
    fn integer(&mut self) -> (t: Result<tokens::T, CompileError>)
        requires
            old(self).wf(),
            old(self)@.1 < old(self)@.0.len(),
            is_digit_byte(old(self)@.0[old(self)@.1]),
        ensures
            final(self).wf(),
            final(self)@.0 == old(self)@.0,
            match t {
                Ok(tok) => spec_scan_number(old(self)@.0, old(self)@.1) == Ok::<
                    (TokenV, int),
                    CompileErrorV,
                >((tok@, final(self)@.1)),
                Err(e) => spec_scan_number(old(self)@.0, old(self)@.1) == Err::<
                    (TokenV, int),
                    CompileErrorV,
                >(e@),
            },
            final(self)@.1 > old(self)@.1,
    {
        let ghost s = self.input@;
        let ghost i0 = self.pos as int;
        let n = self.input.len();
        proof {
            lemma_digit_run_end(s, i0);
        }
        let mut value: i64 = 0;
        let mut overflow = false;
        let mut digits = String::new();
        proof {
            assert(digits@ =~= bytes_chars(s, i0, i0));
        }
        while self.pos < self.input.len() && self.input[self.pos] >= 48 && self.input[self.pos]
            <= 57
            invariant
                self.wf(),
                self.input@ == s,
                i0 <= self.pos <= s.len(),
                forall|k: int| i0 <= k < self.pos ==> is_digit_byte(#[trigger] s[k]),
                digit_run_end(s, i0) == digit_run_end(s, self.pos as int),
                digits@ == bytes_chars(s, i0, self.pos as int),
                value >= 0,
                !overflow ==> value == digits_value(s, i0, self.pos as int),
                overflow ==> digits_value(s, i0, self.pos as int) > i64::MAX,
            decreases self.input@.len() - self.pos,
        {
            let d = (self.input[self.pos] - 48) as i64;
            digits.append(crate::text::byte_str(self.input[self.pos]));
            let ghost dv_before = digits_value(s, i0, self.pos as int);
            if value > (i64::MAX - d) / 10 {
                proof {
                    if !overflow {
                        vstd::arithmetic::div_mod::lemma_fundamental_div_mod(
                            i64::MAX - d,
                            10,
                        );
                        assert(dv_before * 10 + d > i64::MAX) by (nonlinear_arith)
                            requires
                                dv_before > (i64::MAX - (d as int)) / 10,
                                i64::MAX - d == 10 * ((i64::MAX - (d as int)) / 10) + (i64::MAX - (
                                d as int)) % 10,
                                0 <= (i64::MAX - (d as int)) % 10 < 10,
                                dv_before >= 0,
                        ;
                    } else {
                        assert(dv_before * 10 + d > i64::MAX) by (nonlinear_arith)
                            requires
                                dv_before > i64::MAX,
                                d >= 0,
                        ;
                    }
                }
                overflow = true;
            } else {
                proof {
                    if !overflow {
                        vstd::arithmetic::div_mod::lemma_fundamental_div_mod(
                            i64::MAX - d,
                            10,
                        );
                        assert(value * 10 + d <= i64::MAX) by (nonlinear_arith)
                            requires
                                value <= (i64::MAX - (d as int)) / 10,
                                i64::MAX - d == 10 * ((i64::MAX - (d as int)) / 10) + (i64::MAX - (
                                d as int)) % 10,
                                0 <= (i64::MAX - (d as int)) % 10 < 10,
                                value >= 0,
                                d >= 0,
                        ;
                    } else {
                        assert(dv_before * 10 + d > i64::MAX) by (nonlinear_arith)
                            requires
                                dv_before > i64::MAX,
                                d >= 0,
                        ;
                    }
                }
                if !overflow {
                    value = value * 10 + d;
                }
            }
            self.pos = self.pos + 1;
            proof {
                assert(digits@ =~= bytes_chars(s, i0, self.pos as int));
            }
        }
        proof {
            assert(digit_run_end(s, self.pos as int) == self.pos as int);
        }
        let ghost j = self.pos as int;
        let mut long_suffix = false;
        if self.pos < self.input.len() && (self.input[self.pos] == 108 || self.input[self.pos]
            == 76) {
            long_suffix = true;
            self.pos = self.pos + 1;
        }
        let word_follows = self.pos < self.input.len() && (self.input[self.pos] == 95 || (
        self.input[self.pos] >= 48 && self.input[self.pos] <= 57) || (self.input[self.pos] >= 65
            && self.input[self.pos] <= 90) || (self.input[self.pos] >= 97 && self.input[self.pos]
            <= 122));
        if word_follows || overflow {
            return Err(CompileError::MalformedNumber(digits));
        }
        if long_suffix {
            Ok(tokens::T::ConstLong(value))
        } else {
            if value > 0x7fff_ffff {
                Err(CompileError::MalformedNumber(digits))
            } else {
                Ok(tokens::T::ConstInt(value as i32))
            }
        }
    }

    /// Scans the next token, exactly as [`spec_next_token`] says.
    pub fn get_one_token(&mut self) -> (t: Result<tokens::T, CompileError>)
        requires
            old(self).wf(),
        ensures
            final(self).wf(),
            final(self)@.0 == old(self)@.0,
            match t {
                Ok(tok) => spec_next_token(old(self)@.0, old(self)@.1) == Ok::<
                    (TokenV, int),
                    CompileErrorV,
                >((tok@, final(self)@.1)),
                Err(e) => spec_next_token(old(self)@.0, old(self)@.1) == Err::<
                    (TokenV, int),
                    CompileErrorV,
                >(e@),
            },
        decreases old(self)@.0.len() - old(self)@.1,
    {
        if self.pos >= self.input.len() {
            return Ok(tokens::T::Eof);
        }
        let ch = self.input[self.pos];
        if ch == 95 || (ch >= 65 && ch <= 90) || (ch >= 97 && ch <= 122) {
            return Ok(self.identifier());
        }
        if ch >= 48 && ch <= 57 {
            return self.integer();
        }
        if ch == 32 || ch == 10 || ch == 9 {
            self.pos = self.pos + 1;
            return self.get_one_token();
        }
        self.pos = self.pos + 1;
        match ch {
            37 => Ok(tokens::T::Percent),
            59 => Ok(tokens::T::Semicolon),
            43 => Ok(tokens::T::Plus),
            42 => Ok(tokens::T::Star),
            123 => Ok(tokens::T::OpenBrace),
            125 => Ok(tokens::T::CloseBrace),
            40 => Ok(tokens::T::OpenParen),
            41 => Ok(tokens::T::CloseParen),
            126 => Ok(tokens::T::Tilde),
            63 => Ok(tokens::T::QuestionMark),
            58 => Ok(tokens::T::Colon),
            47 => Ok(tokens::T::Slash),
            44 => Ok(tokens::T::Comma),
            61 => {
                if self.pos < self.input.len() && self.input[self.pos] == 61 {
                    self.pos = self.pos + 1;
                    Ok(tokens::T::DoubleEqual)
                } else {
                    Ok(tokens::T::EqualSign)
                }
            },
            38 => {
                if self.pos < self.input.len() && self.input[self.pos] == 38 {
                    self.pos = self.pos + 1;
                    Ok(tokens::T::LogicalAnd)
                } else {
                    Err(CompileError::UnknownCharacter(ch))
                }
            },
            124 => {
                if self.pos < self.input.len() && self.input[self.pos] == 124 {
                    self.pos = self.pos + 1;
                    Ok(tokens::T::LogicalOr)
                } else {
                    Err(CompileError::UnknownCharacter(ch))
                }
            },
            60 => {
                if self.pos < self.input.len() && self.input[self.pos] == 61 {
                    self.pos = self.pos + 1;
                    Ok(tokens::T::LessOrEqual)
                } else {
                    Ok(tokens::T::LessThan)
                }
            },
            62 => {
                if self.pos < self.input.len() && self.input[self.pos] == 61 {
                    self.pos = self.pos + 1;
                    Ok(tokens::T::GreaterOrEqual)
                } else {
                    Ok(tokens::T::GreaterThan)
                }
            },
            33 => {
                if self.pos < self.input.len() && self.input[self.pos] == 61 {
                    self.pos = self.pos + 1;
                    Ok(tokens::T::NotEqual)
                } else {
                    Ok(tokens::T::Bang)
                }
            },
            45 => {
                if self.pos < self.input.len() && self.input[self.pos] == 45 {
                    self.pos = self.pos + 1;
                    Ok(tokens::T::DoubleHyphen)
                } else {
                    Ok(tokens::T::Hyphen)
                }
            },
            _ => Err(CompileError::UnknownCharacter(ch)),
        }
    }

    /// Scans the whole remaining input into the token stream that
    /// [`spec_lex_from`] gives it, ending in the end-of-file marker.
    pub fn lex(&mut self) -> (r: Result<Vec<tokens::T>, CompileError>)
        requires
            old(self).wf(),
        ensures
            final(self).wf(),
            match r {
                Ok(ts) => spec_lex_from(old(self)@.0, old(self)@.1) == Ok::<
                    Seq<TokenV>,
                    CompileErrorV,
                >(token_views(ts@)) && ts@.len() >= 1 && ts@[ts@.len() - 1]@ is Eof,
                Err(e) => spec_lex_from(old(self)@.0, old(self)@.1) == Err::<
                    Seq<TokenV>,
                    CompileErrorV,
                >(e@),
            },
    {
        let ghost s = self.input@;
        let ghost i0 = self.pos as int;
        let mut ts: Vec<tokens::T> = Vec::new();
        proof {
            lemma_token_views(ts@);
            assert(token_views(ts@) =~= Seq::<TokenV>::empty());
        }
        loop
            invariant
                self.wf(),
                self@.0 == s,
                forall|j: int| 0 <= j < ts@.len() ==> !((#[trigger] ts@[j])@ is Eof),
                (match spec_lex_from(s, self@.1) {
                    Ok(rest) => spec_lex_from(s, i0) == Ok::<Seq<TokenV>, CompileErrorV>(
                        token_views(ts@) + rest,
                    ),
                    Err(e) => spec_lex_from(s, i0) == Err::<Seq<TokenV>, CompileErrorV>(e),
                }),
            decreases s.len() - self@.1,
        {
            let ghost pos_before = self@.1;
            let t = match self.get_one_token() {
                Ok(t) => t,
                Err(e) => {
                    return Err(e);
                },
            };
            proof {
                lemma_next_token_progress(s, pos_before);
            }
            let is_eof = matches!(t, tokens::T::Eof);
            let ghost ts_before = ts@;
            ts.push(t);
            proof {
                lemma_token_views(ts@);
                lemma_token_views(ts_before);
                assert(token_views(ts@) =~= token_views(ts_before).push(ts@[ts@.len() - 1]@));
            }
            if is_eof {
                proof {
                    assert(spec_lex_from(s, pos_before) == Ok::<Seq<TokenV>, CompileErrorV>(
                        seq![TokenV::Eof],
                    ));
                    assert(token_views(ts_before) + seq![TokenV::Eof] =~= token_views(ts@));
                }
                return Ok(ts);
            }
            proof {
                let tv = ts@[ts@.len() - 1]@;
                assert(spec_next_token(s, pos_before) == Ok::<(TokenV, int), CompileErrorV>(
                    (tv, self@.1),
                ));
                assert(pos_before < self@.1 <= s.len());
                match spec_lex_from(s, self@.1) {
                    Ok(rest) => {
                        assert(spec_lex_from(s, pos_before) == Ok::<Seq<TokenV>, CompileErrorV>(
                            seq![tv] + rest,
                        ));
                        assert(token_views(ts_before) + (seq![tv] + rest) =~= token_views(ts@)
                            + rest);
                    },
                    Err(e) => {
                        assert(spec_lex_from(s, pos_before) == Err::<Seq<TokenV>, CompileErrorV>(
                            e,
                        ));
                    },
                }
            }
        }
    }
}

} // verus!
