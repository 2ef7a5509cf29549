//! Splits canonical syntax into tokens that carry their character span.
use vstd::prelude::*;
use crate::error::EvalError;
use crate::normalize::chars_of;

verus! {

#[derive(Clone, Copy, PartialEq, Eq, Debug, Structural)]
pub enum TokenKind {
    Number,
    Plus,
    Minus,
    Star,
    Slash,
    Caret,
    Sqrt,
    Abs,
    LParen,
    RParen,
}

/// A token and the characters `start..end` of the source that it covers.
#[derive(Clone, Copy, PartialEq, Eq, Debug, Structural)]
pub struct Token {
    pub kind: TokenKind,
    pub start: usize,
    pub end: usize,
}

pub open spec fn is_space(c: char) -> bool {
    c == ' ' || c == '\t' || c == '\n' || c == '\r'
}

pub open spec fn is_digit(c: char) -> bool {
    '0' <= c && c <= '9'
}

/// The operator or parenthesis that a single character stands for;
/// `×` and `÷` are aliases of `*` and `/`.
pub open spec fn symbol_kind(c: char) -> Option<TokenKind> {
    if c == '+' {
        Some(TokenKind::Plus)
    } else if c == '-' {
        Some(TokenKind::Minus)
    } else if c == '*' || c == '×' {
        Some(TokenKind::Star)
    } else if c == '/' || c == '÷' {
        Some(TokenKind::Slash)
    } else if c == '^' {
        Some(TokenKind::Caret)
    } else if c == '(' {
        Some(TokenKind::LParen)
    } else if c == ')' {
        Some(TokenKind::RParen)
    } else {
        None
    }
}

/// Where the maximal run of digits with at most one `.` that starts at `i`
/// ends.
pub open spec fn number_end(s: Seq<char>, i: int, seen_dot: bool) -> int
    decreases s.len() - i,
{
    if 0 <= i < s.len() && (is_digit(s[i]) || (s[i] == '.' && !seen_dot)) {
        number_end(s, i + 1, seen_dot || s[i] == '.')
    } else {
        i
    }
}

pub open spec fn has_digit(s: Seq<char>, a: int, b: int) -> bool {
    exists|k: int| a <= k < b && is_digit(#[trigger] s[k])
}

pub open spec fn sqrt_at(s: Seq<char>, i: int) -> bool {
    0 <= i && i + 4 < s.len() && s[i] == 's' && s[i + 1] == 'q' && s[i + 2] == 'r'
        && s[i + 3] == 't' && s[i + 4] == '('
}

pub open spec fn abs_at(s: Seq<char>, i: int) -> bool {
    0 <= i && i + 3 < s.len() && s[i] == 'a' && s[i + 1] == 'b' && s[i + 2] == 's'
        && s[i + 3] == '('
}

pub open spec fn token(kind: TokenKind, start: int, end: int) -> Token {
    Token { kind, start: start as usize, end: end as usize }
}

pub open spec fn prepend(t: Token, r: Result<Seq<Token>, int>) -> Result<Seq<Token>, int> {
    match r {
        Ok(ts) => Ok(seq![t] + ts),
        Err(k) => Err(k),
    }
}

/// The tokens of `s` from position `i` on, or the position of the first
/// character that starts no token.
pub open spec fn lex(s: Seq<char>, i: int) -> Result<Seq<Token>, int>
    decreases s.len() - i,
{
    if i < 0 || i >= s.len() {
        Ok(seq![])
    } else if is_space(s[i]) {
        lex(s, i + 1)
    } else if is_digit(s[i]) || s[i] == '.' {
        let e = number_end(s, i, false);
        if i < e <= s.len() && has_digit(s, i, e) {
            prepend(token(TokenKind::Number, i, e), lex(s, e))
        } else {
            Err(i)
        }
    } else if symbol_kind(s[i]) is Some {
        prepend(token(symbol_kind(s[i])->0, i, i + 1), lex(s, i + 1))
    } else if sqrt_at(s, i) {
        prepend(token(TokenKind::Sqrt, i, i + 4), lex(s, i + 4))
    } else if abs_at(s, i) {
        prepend(token(TokenKind::Abs, i, i + 3), lex(s, i + 3))
    } else {
        Err(i)
    }
}

pub open spec fn glue(pre: Seq<Token>, r: Result<Seq<Token>, int>) -> Result<Seq<Token>, int> {
    match r {
        Ok(ts) => Ok(pre + ts),
        Err(k) => Err(k),
    }
}

fn symbol_of(c: char) -> (r: Option<TokenKind>)
    ensures
        r == symbol_kind(c),
{
    if c == '+' {
        Some(TokenKind::Plus)
    } else if c == '-' {
        Some(TokenKind::Minus)
    } else if c == '*' || c == '×' {
        Some(TokenKind::Star)
    } else if c == '/' || c == '÷' {
        Some(TokenKind::Slash)
    } else if c == '^' {
        Some(TokenKind::Caret)
    } else if c == '(' {
        Some(TokenKind::LParen)
    } else if c == ')' {
        Some(TokenKind::RParen)
    } else {
        None
    }
}

/// End of the number literal starting at `i`, and whether it holds a digit.
fn scan_number(s: &Vec<char>, i: usize) -> (r: (usize, bool))
    requires
        i < s@.len(),
    ensures
        r.0 as int == number_end(s@, i as int, false),
        r.1 == has_digit(s@, i as int, r.0 as int),
        i <= r.0 <= s@.len(),
{
    let mut j: usize = i;
    let mut seen_dot = false;
    let mut digits = false;
    while j < s.len() && (('0' <= s[j] && s[j] <= '9') || (s[j] == '.' && !seen_dot))
        invariant
            i <= j <= s@.len(),
            number_end(s@, i as int, false) == number_end(s@, j as int, seen_dot),
            digits == has_digit(s@, i as int, j as int),
        decreases s@.len() - j,
    {
        if s[j] == '.' {
            seen_dot = true;
        } else {
            digits = true;
        }
        j += 1;
        assert(digits == has_digit(s@, i as int, j as int)) by {
            if has_digit(s@, i as int, j as int) && !is_digit(s@[j - 1]) {
                let k = choose|k: int| i <= k < j && is_digit(#[trigger] s@[k]);
                assert(i <= k < j - 1);
            }
        }
    }
    (j, digits)
}

/// Splits canonical syntax into tokens; spaces are skipped.
pub fn tokenize(src: &str) -> (r: Result<Vec<Token>, EvalError>)
    ensures
        match lex(src@, 0) {
            Ok(ts) => r matches Ok(v) && v@ == ts,
            Err(k) => r == Err::<Vec<Token>, EvalError>(EvalError::Tokenize { pos: k as usize }),
        },
{
    let s = chars_of(src);
    let n = s.len();
    let mut out: Vec<Token> = Vec::new();
    let mut i: usize = 0;
    assert(glue(out@, lex(s@, 0)) == lex(s@, 0)) by {
        match lex(s@, 0) {
            Ok(ts) => assert(out@ + ts =~= ts),
            Err(_) => {},
        }
    }
    while i < n
        invariant
            n == s@.len(),
            s@ == src@,
            i <= n,
            forall|k: int| 0 <= k < out@.len() ==> #[trigger] out@[k].end <= i,
            lex(s@, 0) == glue(out@, lex(s@, i as int)),
        decreases n - i,
    {
        let c = s[i];
        let ghost old_out = out@;
        if c == ' ' || c == '\t' || c == '\n' || c == '\r' {
            i += 1;
        } else if ('0' <= c && c <= '9') || c == '.' {
            let (e, digits) = scan_number(&s, i);
            if !digits {
                return Err(EvalError::Tokenize { pos: i });
            }
            out.push(Token { kind: TokenKind::Number, start: i, end: e });
            i = e;
        } else if let Some(k) = symbol_of(c) {
            out.push(Token { kind: k, start: i, end: i + 1 });
            i += 1;
        } else if n - i > 4 && c == 's' && s[i + 1] == 'q' && s[i + 2] == 'r' && s[i + 3] == 't'
            && s[i + 4] == '(' {
            out.push(Token { kind: TokenKind::Sqrt, start: i, end: i + 4 });
            i += 4;
        } else if n - i > 3 && c == 'a' && s[i + 1] == 'b' && s[i + 2] == 's' && s[i + 3] == '(' {
            out.push(Token { kind: TokenKind::Abs, start: i, end: i + 3 });
            i += 3;
        } else {
            return Err(EvalError::Tokenize { pos: i });
        }
        assert(lex(s@, 0) == glue(out@, lex(s@, i as int))) by {
            match lex(s@, i as int) {
                Ok(ts) => {
                    if out@.len() > old_out.len() {
                        assert(old_out + (seq![out@.last()] + ts) =~= out@ + ts);
                    }
                },
                Err(_) => {},
            }
        }
    }
    assert(out@ + seq![] =~= out@);
    Ok(out)
}

} // verus!
