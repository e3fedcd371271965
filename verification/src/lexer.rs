//! The lexer: turns a character vector into tokens, one call at a time. The
//! token each call produces, and where it leaves the cursor, are fixed by the
//! scanning functions over the character sequence.

use vstd::prelude::*;
use crate::float::{float_of_dec, f64_of_dec, SIGN_MASK};
use crate::token::{Token, TokenV};

verus! {

/// The whitespace the lexer skips: blank, tab, newline, carriage return.
pub open spec fn is_ws(c: char) -> bool {
    c == ' ' || c == '\t' || c == '\n' || c == '\r'
}

/// An ASCII decimal digit.
pub open spec fn is_digit(c: char) -> bool {
    48 <= (c as u32) && (c as u32) <= 57
}

/// An ASCII letter.
pub open spec fn is_letter(c: char) -> bool {
    (65 <= (c as u32) && (c as u32) <= 90) || (97 <= (c as u32) && (c as u32) <= 122)
}

/// A character that may continue an identifier.
pub open spec fn is_ident_char(c: char) -> bool {
    is_letter(c) || is_digit(c) || c == '_'
}

/// First position at or after `pos` that does not hold whitespace.
pub open spec fn skip_ws_s(src: Seq<char>, pos: int) -> int
    decreases src.len() - pos,
        when 0 <= pos <= src.len()
{
    if pos >= src.len() {
        pos
    } else if is_ws(src[pos]) {
        skip_ws_s(src, pos + 1)
    } else {
        pos
    }
}

/// First position at or after `pos` that does not hold a digit.
pub open spec fn digits_end(src: Seq<char>, pos: int) -> int
    decreases src.len() - pos,
        when 0 <= pos <= src.len()
{
    if pos >= src.len() {
        pos
    } else if is_digit(src[pos]) {
        digits_end(src, pos + 1)
    } else {
        pos
    }
}

/// First position at or after `pos` that cannot continue an identifier.
pub open spec fn ident_end(src: Seq<char>, pos: int) -> int
    decreases src.len() - pos,
        when 0 <= pos <= src.len()
{
    if pos >= src.len() {
        pos
    } else if is_ident_char(src[pos]) {
        ident_end(src, pos + 1)
    } else {
        pos
    }
}

/// Value of one digit character.
pub open spec fn digit_val(c: char) -> nat
    recommends
        is_digit(c),
{
    ((c as u32) - 48) as nat
}

/// Value of a digit string read as a decimal number.
pub open spec fn dec_val(s: Seq<char>) -> nat
    decreases s.len(),
{
    if s.len() == 0 {
        0
    } else {
        dec_val(s.drop_last()) * 10 + digit_val(s.last())
    }
}

/// Token of an integer literal: its value, or an illegal marker holding the
/// literal's first character where the value exceeds the integer range.
pub open spec fn int_token_of(lit: Seq<char>) -> TokenV {
    if dec_val(lit) > i64::MAX as nat {
        TokenV::Illegal(lit[0])
    } else {
        TokenV::Number(dec_val(lit) as i64)
    }
}

/// The keyword a word denotes, or an identifier.
pub open spec fn word_token(w: Seq<char>) -> TokenV {
    if w == "var"@ {
        TokenV::Var
    } else if w == "true"@ {
        TokenV::Bool(true)
    } else if w == "false"@ {
        TokenV::Bool(false)
    } else if w == "print"@ {
        TokenV::Print
    } else if w == "if"@ {
        TokenV::If
    } else if w == "else"@ {
        TokenV::Else
    } else if w == "elif"@ {
        TokenV::Elif
    } else if w == "fn"@ {
        TokenV::Fn
    } else if w == "return"@ {
        TokenV::Return
    } else if w == "for"@ {
        TokenV::For
    } else if w == "in"@ {
        TokenV::In
    } else if w == "range"@ {
        TokenV::Range
    } else {
        TokenV::Identifier(w)
    }
}

/// Scan of a number starting at the digit at `start`: the integer digits,
/// then, after a decimal point, the fraction digits, which only whitespace, a
/// semicolon or the end of input may follow; a bare trailing point reads as a
/// zero fraction.
pub open spec fn read_number_s(src: Seq<char>, start: int) -> (TokenV, int)
    recommends
        0 <= start < src.len(),
        is_digit(src[start]),
{
    let de = digits_end(src, start);
    if de < src.len() && src[de] == '.' {
        let fe = digits_end(src, de + 1);
        let lit = src.subrange(start, fe);
        let norm = if fe == de + 1 {
            lit.push('0')
        } else {
            lit
        };
        if fe < src.len() && !is_ws(src[fe]) && src[fe] != ';' {
            (TokenV::Illegal(src[fe]), fe)
        } else {
            (TokenV::Float(float_of_dec(norm)), fe)
        }
    } else {
        (int_token_of(src.subrange(start, de)), de)
    }
}

/// The token a minus sign in front of a number produces.
pub open spec fn neg_token(t: TokenV) -> TokenV {
    match t {
        TokenV::Number(n) => TokenV::Number((0 - n) as i64),
        TokenV::Float(b) => TokenV::Float(b ^ SIGN_MASK),
        other => other,
    }
}

/// Scan of a string literal's remainder: characters accumulate until the
/// closing quote; a backslash takes the following character verbatim; input
/// that ends first yields an illegal marker.
pub open spec fn read_string_s(src: Seq<char>, pos: int, acc: Seq<char>) -> (TokenV, int)
    decreases src.len() - pos,
        when 0 <= pos <= src.len()
{
    if pos >= src.len() {
        (TokenV::Illegal('"'), pos)
    } else if src[pos] == '"' {
        (TokenV::String(acc), pos + 1)
    } else if src[pos] == '\\' {
        if pos + 1 >= src.len() {
            (TokenV::Illegal('"'), pos + 1)
        } else {
            read_string_s(src, pos + 2, acc.push(src[pos + 1]))
        }
    } else {
        read_string_s(src, pos + 1, acc.push(src[pos]))
    }
}

/// The token found at or after `pos`, and the position just past it.
pub open spec fn next_token_s(src: Seq<char>, pos: int) -> (TokenV, int)
    recommends
        0 <= pos <= src.len(),
{
    let p = skip_ws_s(src, pos);
    if p >= src.len() {
        (TokenV::EOF, p)
    } else {
        let c = src[p];
        let q = p + 1;
        if c == '(' {
            (TokenV::LParen, q)
        } else if c == ')' {
            (TokenV::RParen, q)
        } else if c == '{' {
            (TokenV::LBrace, q)
        } else if c == '}' {
            (TokenV::RBrace, q)
        } else if c == '+' {
            (TokenV::Plus, q)
        } else if c == '*' {
            (TokenV::Star, q)
        } else if c == '/' {
            (TokenV::Slash, q)
        } else if c == ';' {
            (TokenV::Semicolon, q)
        } else if c == ',' {
            (TokenV::Comma, q)
        } else if c == '-' {
            if q < src.len() && is_digit(src[q]) {
                let (t, e) = read_number_s(src, q);
                (neg_token(t), e)
            } else {
                (TokenV::Minus, q)
            }
        } else if c == '=' {
            if q < src.len() && src[q] == '=' {
                (TokenV::DblEqual, q + 1)
            } else {
                (TokenV::Equal, q)
            }
        } else if c == '!' {
            if q < src.len() && src[q] == '=' {
                (TokenV::NotEqual, q + 1)
            } else {
                (TokenV::Illegal('!'), q)
            }
        } else if c == '<' {
            if q < src.len() && src[q] == '=' {
                (TokenV::LessThanEqual, q + 1)
            } else {
                (TokenV::LessThan, q)
            }
        } else if c == '>' {
            if q < src.len() && src[q] == '=' {
                (TokenV::GreaterThanEqual, q + 1)
            } else {
                (TokenV::GreaterThan, q)
            }
        } else if c == '"' {
            read_string_s(src, q, Seq::empty())
        } else if is_digit(c) {
            read_number_s(src, p)
        } else if is_letter(c) {
            let e = ident_end(src, p);
            (word_token(src.subrange(p, e)), e)
        } else {
            (TokenV::Illegal(c), q)
        }
    }
}

/// The characters between `pos` and the whitespace scan's end are blank, and
/// the scan stops inside the input only on something else.
pub proof fn lemma_skip_ws(src: Seq<char>, pos: int)
    requires
        0 <= pos <= src.len(),
    ensures
        pos <= skip_ws_s(src, pos) <= src.len(),
        skip_ws_s(src, pos) < src.len() ==> !is_ws(src[skip_ws_s(src, pos)]),
    decreases src.len() - pos,
{
    if pos < src.len() && is_ws(src[pos]) {
        lemma_skip_ws(src, pos + 1);
    }
}

/// The digit scan moves forward over digits only and stops inside the input
/// only on a non-digit.
pub proof fn lemma_digits_end(src: Seq<char>, pos: int)
    requires
        0 <= pos <= src.len(),
    ensures
        pos <= digits_end(src, pos) <= src.len(),
        digits_end(src, pos) < src.len() ==> !is_digit(src[digits_end(src, pos)]),
        forall|j: int| pos <= j < digits_end(src, pos) ==> is_digit(#[trigger] src[j]),
    decreases src.len() - pos,
{
    if pos < src.len() && is_digit(src[pos]) {
        lemma_digits_end(src, pos + 1);
    }
}

/// The identifier scan moves forward over identifier characters only and
/// stops inside the input only on something else.
pub proof fn lemma_ident_end(src: Seq<char>, pos: int)
    requires
        0 <= pos <= src.len(),
    ensures
        pos <= ident_end(src, pos) <= src.len(),
        ident_end(src, pos) < src.len() ==> !is_ident_char(src[ident_end(src, pos)]),
        forall|j: int| pos <= j < ident_end(src, pos) ==> is_ident_char(#[trigger] src[j]),
    decreases src.len() - pos,
{
    if pos < src.len() && is_ident_char(src[pos]) {
        lemma_ident_end(src, pos + 1);
    }
}

/// Appending a digit multiplies the value by ten and adds the digit.
proof fn lemma_dec_val_append(s: Seq<char>, c: char)
    ensures
        dec_val(s.push(c)) == dec_val(s) * 10 + digit_val(c),
{
    assert(s.push(c).drop_last() =~= s);
    assert(s.push(c).last() == c);
}

/// Converse characterization of the digit scan's end.
pub proof fn lemma_digits_end_is(src: Seq<char>, start: int, e: int)
    requires
        0 <= start <= e <= src.len(),
        forall|j: int| start <= j < e ==> is_digit(#[trigger] src[j]),
        e < src.len() ==> !is_digit(src[e]),
    ensures
        digits_end(src, start) == e,
    decreases e - start,
{
    if start < e {
        lemma_digits_end_is(src, start + 1, e);
    }
}

/// Converse characterization of the identifier scan's end.
pub proof fn lemma_ident_end_is(src: Seq<char>, start: int, e: int)
    requires
        0 <= start <= e <= src.len(),
        forall|j: int| start <= j < e ==> is_ident_char(#[trigger] src[j]),
        e < src.len() ==> !is_ident_char(src[e]),
    ensures
        ident_end(src, start) == e,
    decreases e - start,
{
    if start < e {
        lemma_ident_end_is(src, start + 1, e);
    }
}

/// Reads the value of a digit string; the flag reports a value over the
/// integer range.
fn parse_int(digits: &Vec<char>) -> (r: (u64, bool))
    requires
        forall|j: int| 0 <= j < digits@.len() ==> is_digit(#[trigger] digits@[j]),
    ensures
        r.1 == (dec_val(digits@) > i64::MAX as nat),
        !r.1 ==> r.0 as nat == dec_val(digits@),
{
    let mut n: u64 = 0;
    let mut of = false;
    let mut i: usize = 0;
    while i < digits.len()
        invariant
            i <= digits@.len(),
            forall|j: int| 0 <= j < digits@.len() ==> is_digit(#[trigger] digits@[j]),
            of == (dec_val(digits@.subrange(0, i as int)) > i64::MAX as nat),
            !of ==> n as nat == dec_val(digits@.subrange(0, i as int)),
        decreases digits@.len() - i,
    {
        let c = digits[i];
        proof {
            assert(is_digit(digits@[i as int]));
        }
        let d: u64 = ((c as u32) as u64) - 48;
        proof {
            assert(digits@.subrange(0, i as int).push(digits@[i as int]) =~= digits@.subrange(
                0,
                i + 1,
            ));
            lemma_dec_val_append(digits@.subrange(0, i as int), digits@[i as int]);
            assert(digit_val(digits@[i as int]) == d);
        }
        if of {
        } else if n > (9223372036854775807u64 - d) / 10 {
            of = true;
        } else {
            n = n * 10 + d;
        }
        i = i + 1;
    }
    proof {
        assert(digits@.subrange(0, digits@.len() as int) =~= digits@);
    }
    (n, of)
}

/// The lexer: a character vector and a cursor into it.
pub struct Lexer {
    pub src: Vec<char>,
    pub pos: usize,
}

impl Lexer {
    /// A lexer over the characters of `input`, at its start.
    pub fn new(input: &str) -> (l: Lexer)
        ensures
            l.src@ == input@,
            l.pos == 0,
    {
        Lexer { src: crate::text::chars_of(input), pos: 0 }
    }

    /// The character under the cursor, if any, without consuming it.
    pub fn peek(&self) -> (r: Option<char>)
        ensures
            r == if self.pos < self.src@.len() {
                Some(self.src@[self.pos as int])
            } else {
                None::<char>
            },
    {
        if self.pos < self.src.len() {
            Some(self.src[self.pos])
        } else {
            None
        }
    }

    /// Consumes and hands back the character under the cursor, if any.
    pub fn advance(&mut self) -> (r: Option<char>)
        ensures
            final(self).src@ == old(self).src@,
            r == if old(self).pos < old(self).src@.len() {
                Some(old(self).src@[old(self).pos as int])
            } else {
                None::<char>
            },
            final(self).pos == if old(self).pos < old(self).src@.len() {
                old(self).pos + 1
            } else {
                old(self).pos as int
            },
    {
        if self.pos < self.src.len() {
            let c = self.src[self.pos];
            self.pos = self.pos + 1;
            Some(c)
        } else {
            None
        }
    }

    /// Moves the cursor past any whitespace.
    #[verifier::loop_isolation(false)]
    pub fn skip_whitespace(&mut self)
        requires
            old(self).pos <= old(self).src@.len(),
        ensures
            final(self).src@ == old(self).src@,
            final(self).pos as int == skip_ws_s(old(self).src@, old(self).pos as int),
            final(self).pos <= final(self).src@.len(),
    {
        loop
            invariant
                self.src@ == old(self).src@,
                self.pos <= self.src@.len(),
                skip_ws_s(old(self).src@, old(self).pos as int) == skip_ws_s(
                    self.src@,
                    self.pos as int,
                ),
            decreases self.src@.len() - self.pos,
        {
            if self.pos >= self.src.len() {
                return ;
            }
            let c = self.src[self.pos];
            if c == ' ' || c == '\t' || c == '\n' || c == '\r' {
                self.pos = self.pos + 1;
            } else {
                return ;
            }
        }
    }

    /// Reads the rest of a number whose first digit, already consumed, is
    /// `first`.
    #[verifier::loop_isolation(false)]
    fn read_number(&mut self, first: char) -> (t: Token)
        requires
            1 <= old(self).pos <= old(self).src@.len(),
            old(self).src@[old(self).pos - 1] == first,
            is_digit(first),
        ensures
            final(self).src@ == old(self).src@,
            final(self).pos <= final(self).src@.len(),
            ({
                let (tv, e) = read_number_s(old(self).src@, old(self).pos - 1);
                t@ == tv && final(self).pos as int == e
            }),
    {
        let ghost src = self.src@;
        let ghost start = old(self).pos - 1;
        let mut lit: Vec<char> = Vec::new();
        lit.push(first);
        loop
            invariant
                self.src@ == src,
                start + lit@.len() == self.pos,
                self.pos <= src.len(),
                lit@ == src.subrange(start, self.pos as int),
                forall|j: int| start <= j < self.pos ==> is_digit(#[trigger] src[j]),
            decreases src.len() - self.pos,
        {
            if self.pos >= self.src.len() {
                break ;
            }
            let c = self.src[self.pos];
            if 48 <= (c as u32) && (c as u32) <= 57 {
                self.pos = self.pos + 1;
                lit.push(c);
                proof {
                    assert(src.subrange(start, self.pos - 1).push(src[self.pos - 1]) =~= src.subrange(
                        start,
                        self.pos as int,
                    ));
                }
            } else {
                break ;
            }
        }
        proof {
            lemma_digits_end_is(src, start, self.pos as int);
        }
        let is_dot: bool = self.pos < self.src.len() && self.src[self.pos] == '.';
        if is_dot {
            self.pos = self.pos + 1;
            lit.push('.');
            let ghost de = self.pos - 1;
            proof {
                assert(src.subrange(start, de).push(src[de]) =~= src.subrange(
                    start,
                    self.pos as int,
                ));
            }
            let frac_start = self.pos;
            loop
                invariant
                    self.src@ == src,
                    frac_start == de + 1,
                    frac_start <= self.pos,
                    start + lit@.len() == self.pos,
                    self.pos <= src.len(),
                    lit@ == src.subrange(start, self.pos as int),
                    forall|j: int| frac_start <= j < self.pos ==> is_digit(#[trigger] src[j]),
                decreases src.len() - self.pos,
            {
                if self.pos >= self.src.len() {
                    break ;
                }
                let c = self.src[self.pos];
                if 48 <= (c as u32) && (c as u32) <= 57 {
                    self.pos = self.pos + 1;
                    lit.push(c);
                    proof {
                        assert(src.subrange(start, self.pos - 1).push(src[self.pos - 1]) =~= src.subrange(
                            start,
                            self.pos as int,
                        ));
                    }
                } else if c == ' ' || c == '\t' || c == '\n' || c == '\r' || c == ';' {
                    break ;
                } else {
                    proof {
                        lemma_digits_end_is(src, frac_start as int, self.pos as int);
                    }
                    return Token::Illegal(c);
                }
            }
            proof {
                lemma_digits_end_is(src, frac_start as int, self.pos as int);
            }
            if self.pos == frac_start {
                lit.push('0');
            }
            let text = crate::text::string_of_chars(&lit);
            Token::Float(f64_of_dec(text.as_str()))
        } else {
            let (n, of) = parse_int(&lit);
            if of {
                Token::Illegal(first)
            } else {
                Token::Number(n as i64)
            }
        }
    }

    /// Reads the rest of a string literal, past its opening quote.
    #[verifier::loop_isolation(false)]
    fn read_string(&mut self) -> (t: Token)
        requires
            old(self).pos <= old(self).src@.len(),
        ensures
            final(self).src@ == old(self).src@,
            final(self).pos <= final(self).src@.len(),
            ({
                let (tv, e) = read_string_s(old(self).src@, old(self).pos as int, Seq::empty());
                t@ == tv && final(self).pos as int == e
            }),
    {
        let mut acc = String::new();
        loop
            invariant
                self.src@ == old(self).src@,
                self.pos <= self.src@.len(),
                read_string_s(old(self).src@, old(self).pos as int, Seq::empty())
                    == read_string_s(self.src@, self.pos as int, acc@),
            decreases self.src@.len() - self.pos,
        {
            if self.pos >= self.src.len() {
                return Token::Illegal('"');
            }
            let c = self.src[self.pos];
            if c == '"' {
                self.pos = self.pos + 1;
                return Token::String(acc);
            } else if c == '\\' {
                self.pos = self.pos + 1;
                if self.pos < self.src.len() {
                    let esc = self.src[self.pos];
                    self.pos = self.pos + 1;
                    acc.push(esc);
                }
            } else {
                self.pos = self.pos + 1;
                acc.push(c);
            }
        }
    }

    /// Reads the rest of an identifier or keyword whose first character, at
    /// the position just before the cursor, has been consumed.
    #[verifier::loop_isolation(false)]
    fn read_identifier(&mut self) -> (t: Token)
        requires
            1 <= old(self).pos <= old(self).src@.len(),
            is_ident_char(old(self).src@[old(self).pos - 1]),
        ensures
            final(self).src@ == old(self).src@,
            final(self).pos <= final(self).src@.len(),
            ({
                let src = old(self).src@;
                let start = old(self).pos - 1;
                let e = ident_end(src, start);
                t@ == word_token(src.subrange(start, e)) && final(self).pos as int == e
            }),
    {
        let ghost src = self.src@;
        let ghost start = old(self).pos - 1;
        let mut ident: Vec<char> = Vec::new();
        ident.push(self.src[self.pos - 1]);
        loop
            invariant
                self.src@ == src,
                start + ident@.len() == self.pos,
                self.pos <= src.len(),
                ident@ == src.subrange(start, self.pos as int),
                forall|j: int| start <= j < self.pos ==> is_ident_char(#[trigger] src[j]),
            decreases src.len() - self.pos,
        {
            if self.pos >= self.src.len() {
                break ;
            }
            let c = self.src[self.pos];
            if (65 <= (c as u32) && (c as u32) <= 90) || (97 <= (c as u32) && (c as u32) <= 122)
                || (48 <= (c as u32) && (c as u32) <= 57) || c == '_' {
                self.pos = self.pos + 1;
                ident.push(c);
                proof {
                    assert(src.subrange(start, self.pos - 1).push(src[self.pos - 1]) =~= src.subrange(
                        start,
                        self.pos as int,
                    ));
                }
            } else {
                break ;
            }
        }
        proof {
            lemma_ident_end_is(src, start, self.pos as int);
        }
        let w = crate::text::string_of_chars(&ident);
        if w.eq(&"var".to_owned()) {
            Token::Var
        } else if w.eq(&"true".to_owned()) {
            Token::Bool(true)
        } else if w.eq(&"false".to_owned()) {
            Token::Bool(false)
        } else if w.eq(&"print".to_owned()) {
            Token::Print
        } else if w.eq(&"if".to_owned()) {
            Token::If
        } else if w.eq(&"else".to_owned()) {
            Token::Else
        } else if w.eq(&"elif".to_owned()) {
            Token::Elif
        } else if w.eq(&"fn".to_owned()) {
            Token::Fn
        } else if w.eq(&"return".to_owned()) {
            Token::Return
        } else if w.eq(&"for".to_owned()) {
            Token::For
        } else if w.eq(&"in".to_owned()) {
            Token::In
        } else if w.eq(&"range".to_owned()) {
            Token::Range
        } else {
            Token::Identifier { name: w }
        }
    }

    /// Reads the next token and moves the cursor past it.
    pub fn next_token(&mut self) -> (t: Token)
        requires
            old(self).pos <= old(self).src@.len(),
        ensures
            final(self).src@ == old(self).src@,
            final(self).pos <= final(self).src@.len(),
            ({
                let (tv, e) = next_token_s(old(self).src@, old(self).pos as int);
                t@ == tv && final(self).pos as int == e
            }),
    {
        self.skip_whitespace();
        proof {
            lemma_skip_ws(old(self).src@, old(self).pos as int);
        }
        let ch = self.advance();
        match ch {
            None => Token::EOF,
            Some(c) => {
                if c == '(' {
                    Token::LParen
                } else if c == ')' {
                    Token::RParen
                } else if c == '{' {
                    Token::LBrace
                } else if c == '}' {
                    Token::RBrace
                } else if c == '+' {
                    Token::Plus
                } else if c == '*' {
                    Token::Star
                } else if c == '/' {
                    Token::Slash
                } else if c == ';' {
                    Token::Semicolon
                } else if c == ',' {
                    Token::Comma
                } else if c == '-' {
                    let digit_next: bool = self.pos < self.src.len() && 48 <= (
                    self.src[self.pos] as u32) && (self.src[self.pos] as u32) <= 57;
                    if digit_next {
                        let first = self.src[self.pos];
                        self.pos = self.pos + 1;
                        let num = self.read_number(first);
                        match num {
                            Token::Number(n) => {
                                proof {
                                    assert(n >= 0);
                                }
                                Token::Number(-n)
                            },
                            Token::Float(b) => Token::Float(b ^ SIGN_MASK),
                            other => other,
                        }
                    } else {
                        Token::Minus
                    }
                } else if c == '=' {
                    let eq_next: bool = self.pos < self.src.len() && self.src[self.pos] == '=';
                    if eq_next {
                        self.pos = self.pos + 1;
                        Token::DblEqual
                    } else {
                        Token::Equal
                    }
                } else if c == '!' {
                    let eq_next: bool = self.pos < self.src.len() && self.src[self.pos] == '=';
                    if eq_next {
                        self.pos = self.pos + 1;
                        Token::NotEqual
                    } else {
                        Token::Illegal('!')
                    }
                } else if c == '<' {
                    let eq_next: bool = self.pos < self.src.len() && self.src[self.pos] == '=';
                    if eq_next {
                        self.pos = self.pos + 1;
                        Token::LessThanEqual
                    } else {
                        Token::LessThan
                    }
                } else if c == '>' {
                    let eq_next: bool = self.pos < self.src.len() && self.src[self.pos] == '=';
                    if eq_next {
                        self.pos = self.pos + 1;
                        Token::GreaterThanEqual
                    } else {
                        Token::GreaterThan
                    }
                } else if c == '"' {
                    self.read_string()
                } else if 48 <= (c as u32) && (c as u32) <= 57 {
                    self.read_number(c)
                } else if (65 <= (c as u32) && (c as u32) <= 90) || (97 <= (c as u32) && (c as u32)
                    <= 122) {
                    self.read_identifier()
                } else {
                    Token::Illegal(c)
                }
            },
        }
    }
}

} // verus!
