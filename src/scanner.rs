use vstd::prelude::*;
use crate::text::{copy_range, message};
use vstd::string::StringSliceAdditionalSpecFns;

verus! {

/// Lexical category of a token.
#[derive(Clone, Copy, Debug, PartialEq, Eq, Structural)]
pub enum TokenKind {
    LeftParen,
    RightParen,
    LeftBrace,
    RightBrace,
    Comma,
    Dot,
    Minus,
    Plus,
    Semicolon,
    Slash,
    Star,
    Bang,
    BangEqual,
    Equal,
    EqualEqual,
    Greater,
    GreaterEqual,
    Less,
    LessEqual,
    Identifier,
    String,
    Number,
    And,
    Class,
    Else,
    False,
    For,
    Fun,
    If,
    Nil,
    Or,
    Print,
    Return,
    Super,
    This,
    True,
    Var,
    While,
    Error,
    EOF,
}

/// One token: its category, its text (for an error token, the message), and
/// the source line where it ends.
#[derive(Debug)]
pub struct Token {
    pub kind: TokenKind,
    pub lexeme: Vec<u8>,
    pub line: usize,
}

/// The category of an identifier-shaped word: the keyword it spells, or
/// `Identifier`.
pub open spec fn keyword_spec(w: Seq<u8>) -> TokenKind {
    if w =~= seq![97u8, 110u8, 100u8] {
        TokenKind::And
    } else if w =~= seq![99u8, 108u8, 97u8, 115u8, 115u8] {
        TokenKind::Class
    } else if w =~= seq![101u8, 108u8, 115u8, 101u8] {
        TokenKind::Else
    } else if w =~= seq![102u8, 97u8, 108u8, 115u8, 101u8] {
        TokenKind::False
    } else if w =~= seq![102u8, 111u8, 114u8] {
        TokenKind::For
    } else if w =~= seq![102u8, 117u8, 110u8] {
        TokenKind::Fun
    } else if w =~= seq![105u8, 102u8] {
        TokenKind::If
    } else if w =~= seq![110u8, 105u8, 108u8] {
        TokenKind::Nil
    } else if w =~= seq![111u8, 114u8] {
        TokenKind::Or
    } else if w =~= seq![112u8, 114u8, 105u8, 110u8, 116u8] {
        TokenKind::Print
    } else if w =~= seq![114u8, 101u8, 116u8, 117u8, 114u8, 110u8] {
        TokenKind::Return
    } else if w =~= seq![115u8, 117u8, 112u8, 101u8, 114u8] {
        TokenKind::Super
    } else if w =~= seq![116u8, 104u8, 105u8, 115u8] {
        TokenKind::This
    } else if w =~= seq![116u8, 114u8, 117u8, 101u8] {
        TokenKind::True
    } else if w =~= seq![118u8, 97u8, 114u8] {
        TokenKind::Var
    } else if w =~= seq![119u8, 104u8, 105u8, 108u8, 101u8] {
        TokenKind::While
    } else {
        TokenKind::Identifier
    }
}

/// The category of an identifier-shaped word.
pub fn keyword_kind(w: &[u8]) -> (r: TokenKind)
    ensures
        r == keyword_spec(w@),
        r != TokenKind::EOF,
        r != TokenKind::Error,
{
    let n = w.len();
    if n == 3 && w[0] == 97u8 && w[1] == 110u8 && w[2] == 100u8 {
        return TokenKind::And;
    }
    if n == 5 && w[0] == 99u8 && w[1] == 108u8 && w[2] == 97u8 && w[3] == 115u8 && w[4] == 115u8 {
        return TokenKind::Class;
    }
    if n == 4 && w[0] == 101u8 && w[1] == 108u8 && w[2] == 115u8 && w[3] == 101u8 {
        return TokenKind::Else;
    }
    if n == 5 && w[0] == 102u8 && w[1] == 97u8 && w[2] == 108u8 && w[3] == 115u8 && w[4] == 101u8 {
        return TokenKind::False;
    }
    if n == 3 && w[0] == 102u8 && w[1] == 111u8 && w[2] == 114u8 {
        return TokenKind::For;
    }
    if n == 3 && w[0] == 102u8 && w[1] == 117u8 && w[2] == 110u8 {
        return TokenKind::Fun;
    }
    if n == 2 && w[0] == 105u8 && w[1] == 102u8 {
        return TokenKind::If;
    }
    if n == 3 && w[0] == 110u8 && w[1] == 105u8 && w[2] == 108u8 {
        return TokenKind::Nil;
    }
    if n == 2 && w[0] == 111u8 && w[1] == 114u8 {
        return TokenKind::Or;
    }
    if n == 5 && w[0] == 112u8 && w[1] == 114u8 && w[2] == 105u8 && w[3] == 110u8 && w[4] == 116u8 {
        return TokenKind::Print;
    }
    if n == 6 && w[0] == 114u8 && w[1] == 101u8 && w[2] == 116u8 && w[3] == 117u8 && w[4] == 114u8 && w[5] == 110u8 {
        return TokenKind::Return;
    }
    if n == 5 && w[0] == 115u8 && w[1] == 117u8 && w[2] == 112u8 && w[3] == 101u8 && w[4] == 114u8 {
        return TokenKind::Super;
    }
    if n == 4 && w[0] == 116u8 && w[1] == 104u8 && w[2] == 105u8 && w[3] == 115u8 {
        return TokenKind::This;
    }
    if n == 4 && w[0] == 116u8 && w[1] == 114u8 && w[2] == 117u8 && w[3] == 101u8 {
        return TokenKind::True;
    }
    if n == 3 && w[0] == 118u8 && w[1] == 97u8 && w[2] == 114u8 {
        return TokenKind::Var;
    }
    if n == 5 && w[0] == 119u8 && w[1] == 104u8 && w[2] == 105u8 && w[3] == 108u8 && w[4] == 101u8 {
        return TokenKind::While;
    }
    TokenKind::Identifier
}
pub open spec fn is_digit_spec(c: u8) -> bool {
    48 <= c <= 57
}

pub open spec fn is_alpha_spec(c: u8) -> bool {
    (97 <= c <= 122) || (65 <= c <= 90) || c == 95
}

fn is_digit(c: u8) -> (r: bool)
    ensures
        r == is_digit_spec(c),
{
    48 <= c && c <= 57
}

fn is_alpha(c: u8) -> (r: bool)
    ensures
        r == is_alpha_spec(c),
{
    (97 <= c && c <= 122) || (65 <= c && c <= 90) || c == 95
}

/// The kind of a one-byte token, or `None`.
pub open spec fn single_kind_spec(c: u8) -> Option<TokenKind> {
    if c == 40 {
        Some(TokenKind::LeftParen)
    } else if c == 41 {
        Some(TokenKind::RightParen)
    } else if c == 123 {
        Some(TokenKind::LeftBrace)
    } else if c == 125 {
        Some(TokenKind::RightBrace)
    } else if c == 44 {
        Some(TokenKind::Comma)
    } else if c == 46 {
        Some(TokenKind::Dot)
    } else if c == 45 {
        Some(TokenKind::Minus)
    } else if c == 43 {
        Some(TokenKind::Plus)
    } else if c == 59 {
        Some(TokenKind::Semicolon)
    } else if c == 47 {
        Some(TokenKind::Slash)
    } else if c == 42 {
        Some(TokenKind::Star)
    } else {
        None
    }
}

/// The kind of a one-byte token, or `None` where the byte starts no such token
/// or may start a two-byte one.
fn single_kind(c: u8) -> (r: Option<TokenKind>)
    ensures
        r == single_kind_spec(c),
{
    if c == 40 {
        Some(TokenKind::LeftParen)
    } else if c == 41 {
        Some(TokenKind::RightParen)
    } else if c == 123 {
        Some(TokenKind::LeftBrace)
    } else if c == 125 {
        Some(TokenKind::RightBrace)
    } else if c == 44 {
        Some(TokenKind::Comma)
    } else if c == 46 {
        Some(TokenKind::Dot)
    } else if c == 45 {
        Some(TokenKind::Minus)
    } else if c == 43 {
        Some(TokenKind::Plus)
    } else if c == 59 {
        Some(TokenKind::Semicolon)
    } else if c == 47 {
        Some(TokenKind::Slash)
    } else if c == 42 {
        Some(TokenKind::Star)
    } else {
        None
    }
}

/// Skips blanks, newlines and `//` comments from `pos`; returns the new
/// position and line.
fn skip_blank(src: &[u8], pos: usize, line: usize) -> (r: (usize, usize))
    requires
        pos <= src@.len(),
    ensures
        pos <= r.0 <= src@.len(),
        r.1 >= line,
        (r.0 as int, r.1) == skip_blank_spec(src@, pos as int, line),
{
    let mut p = pos;
    let mut l = line;
    while p < src.len()
        invariant
            pos <= p <= src@.len(),
            l >= line,
            skip_blank_spec(src@, p as int, l) == skip_blank_spec(src@, pos as int, line),
        decreases src@.len() - p,
    {
        let c = src[p];
        if c == 32 || c == 13 || c == 9 {
            p = p + 1;
        } else if c == 10 {
            l = if l < usize::MAX { l + 1 } else { l };
            p = p + 1;
        } else if c == 47 && src.len() - p > 1 && src[p + 1] == 47 {
            let after = p + 2;
            p = after;
            while p < src.len() && src[p] != 10
                invariant
                    pos <= after <= p <= src@.len(),
                    line_end(src@, p as int) == line_end(src@, after as int),
                decreases src@.len() - p,
            {
                p = p + 1;
            }
        } else {
            return (p, l);
        }
    }
    (p, l)
}


/// A token as the grammar reads it.
pub struct TokenSpec {
    pub kind: TokenKind,
    pub lexeme: Seq<u8>,
    pub line: usize,
}

pub open spec fn token_view(t: Token) -> TokenSpec {
    TokenSpec { kind: t.kind, lexeme: t.lexeme@, line: t.line }
}

pub open spec fn tokens_view(ts: Seq<Token>) -> Seq<TokenSpec> {
    ts.map_values(|t: Token| token_view(t))
}

/// The next line number; it stays at the largest `usize`.
pub open spec fn next_line(l: usize) -> usize {
    if l < usize::MAX {
        (l + 1) as usize
    } else {
        l
    }
}

/// Past the rest of a `//` comment, up to the newline.
pub open spec fn line_end(src: Seq<u8>, p: int) -> int
    decreases src.len() - p,
{
    if 0 <= p < src.len() && src[p] != 10 {
        line_end(src, p + 1)
    } else {
        p
    }
}

/// Past blanks, newlines (counted) and comments.
pub open spec fn skip_blank_spec(src: Seq<u8>, p: int, l: usize) -> (int, usize)
    decreases src.len() - p,
{
    if p < 0 || p >= src.len() {
        (p, l)
    } else {
        let c = src[p];
        if c == 32 || c == 13 || c == 9 {
            skip_blank_spec(src, p + 1, l)
        } else if c == 10 {
            skip_blank_spec(src, p + 1, next_line(l))
        } else if c == 47 && src.len() - p > 1 && src[p + 1] == 47 {
            let e = line_end(src, p + 2);
            if e <= p || e > src.len() {
                (p, l)
            } else {
                skip_blank_spec(src, e, l)
            }
        } else {
            (p, l)
        }
    }
}

/// Past letters, digits and `_`.
pub open spec fn word_end(src: Seq<u8>, p: int) -> int
    decreases src.len() - p,
{
    if 0 <= p < src.len() && (is_alpha_spec(src[p]) || is_digit_spec(src[p])) {
        word_end(src, p + 1)
    } else {
        p
    }
}

/// Past digits.
pub open spec fn digits_end(src: Seq<u8>, p: int) -> int
    decreases src.len() - p,
{
    if 0 <= p < src.len() && is_digit_spec(src[p]) {
        digits_end(src, p + 1)
    } else {
        p
    }
}

/// Up to the closing quote (or the end), counting newlines.
pub open spec fn string_end(src: Seq<u8>, p: int, l: usize) -> (int, usize)
    decreases src.len() - p,
{
    if 0 <= p < src.len() && src[p] != 34 {
        string_end(src, p + 1, if src[p] == 10 { next_line(l) } else { l })
    } else {
        (p, l)
    }
}

/// The end of a number literal that starts at `start`: digits, then a `.`
/// and digits if a digit follows the `.`.
pub open spec fn number_end(src: Seq<u8>, start: int) -> int {
    let p = digits_end(src, start + 1);
    if src.len() - p > 1 && src[p] == 46 && is_digit_spec(src[p + 1]) {
        digits_end(src, p + 1)
    } else {
        p
    }
}

/// The token at `pos` (after blanks), the position after it, and the line there.
pub open spec fn scan_token_spec(src: Seq<u8>, pos: int, line: usize) -> (TokenSpec, int, usize) {
    let (start, l) = skip_blank_spec(src, pos, line);
    if start < 0 || start >= src.len() {
        (TokenSpec { kind: TokenKind::EOF, lexeme: seq![], line: l }, src.len() as int, l)
    } else {
        let c = src[start];
        if is_alpha_spec(c) {
            let e = word_end(src, start + 1);
            let w = src.subrange(start, e);
            (TokenSpec { kind: keyword_spec(w), lexeme: w, line: l }, e, l)
        } else if is_digit_spec(c) {
            let e = number_end(src, start);
            (TokenSpec { kind: TokenKind::Number, lexeme: src.subrange(start, e), line: l }, e, l)
        } else if c == 34 {
            let (e, l2) = string_end(src, start + 1, l);
            if e >= src.len() {
                (TokenSpec { kind: TokenKind::Error, lexeme: "Unterminated string.".spec_bytes(), line: l2 }, e, l2)
            } else {
                (TokenSpec { kind: TokenKind::String, lexeme: src.subrange(start, e + 1), line: l2 }, e + 1, l2)
            }
        } else if single_kind_spec(c) is Some {
            (TokenSpec { kind: single_kind_spec(c)->Some_0, lexeme: src.subrange(start, start + 1), line: l }, start + 1, l)
        } else if c == 33 || c == 61 || c == 60 || c == 62 {
            let eq = start + 1 < src.len() && src[start + 1] == 61;
            let e = if eq { start + 2 } else { start + 1 };
            let kind = if c == 33 {
                if eq { TokenKind::BangEqual } else { TokenKind::Bang }
            } else if c == 61 {
                if eq { TokenKind::EqualEqual } else { TokenKind::Equal }
            } else if c == 60 {
                if eq { TokenKind::LessEqual } else { TokenKind::Less }
            } else {
                if eq { TokenKind::GreaterEqual } else { TokenKind::Greater }
            };
            (TokenSpec { kind, lexeme: src.subrange(start, e), line: l }, e, l)
        } else {
            (TokenSpec { kind: TokenKind::Error, lexeme: "Unexpected character.".spec_bytes(), line: l }, start + 1, l)
        }
    }
}

/// The tokens from `pos` on, ending with the `EOF` token.
pub open spec fn scan_from(src: Seq<u8>, pos: int, line: usize) -> Seq<TokenSpec>
    decreases src.len() - pos,
{
    let (t, next, l) = scan_token_spec(src, pos, line);
    if t.kind == TokenKind::EOF || next <= pos || pos < 0 || next > src.len() {
        seq![t]
    } else {
        seq![t] + scan_from(src, next, l)
    }
}

/// The tokens of a whole source text, from line 1.
pub open spec fn scan_spec(src: Seq<u8>) -> Seq<TokenSpec> {
    scan_from(src, 0, 1)
}

/// Reads the token that starts at `pos`, after blanks. Returns the token and the
/// position after it and the line there; at the end of the input, an `EOF` token.
pub fn scan_token(src: &[u8], pos: usize, line: usize) -> (r: (Token, usize, usize))
    requires
        pos <= src@.len(),
    ensures
        r.1 <= src@.len(),
        r.0.kind != TokenKind::EOF ==> r.1 > pos,
        r.0.kind == TokenKind::Error ==> r.0.lexeme@ == "Unterminated string.".spec_bytes()
            || r.0.lexeme@ == "Unexpected character.".spec_bytes(),
        r.0.kind == TokenKind::EOF ==> r.1 == src@.len(),
        (token_view(r.0), r.1 as int, r.2) == scan_token_spec(src@, pos as int, line),
{
    let (start, l0) = skip_blank(src, pos, line);
    let mut l = l0;
    if start >= src.len() {
        return (Token { kind: TokenKind::EOF, lexeme: Vec::new(), line: l }, src.len(), l);
    }
    let c = src[start];
    let mut p = start + 1;
    let kind: TokenKind;
    if is_alpha(c) {
        while p < src.len() && (is_alpha(src[p]) || is_digit(src[p]))
            invariant
                start < p <= src@.len(),
                word_end(src@, p as int) == word_end(src@, start + 1),
            decreases src@.len() - p,
        {
            p = p + 1;
        }
        let word = copy_range(src, start, p);
        kind = keyword_kind(word.as_slice());
        return (Token { kind, lexeme: word, line: l }, p, l);
    }
    if is_digit(c) {
        while p < src.len() && is_digit(src[p])
            invariant
                start < p <= src@.len(),
                digits_end(src@, p as int) == digits_end(src@, start + 1),
            decreases src@.len() - p,
        {
            p = p + 1;
        }
        if src.len() - p > 1 && src[p] == 46 && is_digit(src[p + 1]) {
            p = p + 1;
            let ghost dot = p;
            while p < src.len() && is_digit(src[p])
                invariant
                    start < dot <= p <= src@.len(),
                    digits_end(src@, p as int) == digits_end(src@, dot as int),
                decreases src@.len() - p,
            {
                p = p + 1;
            }
        }
        return (Token { kind: TokenKind::Number, lexeme: copy_range(src, start, p), line: l }, p, l);
    }
    if c == 34 {
        let ghost l0 = l;
        while p < src.len() && src[p] != 34
            invariant
                start < p <= src@.len(),
                string_end(src@, p as int, l) == string_end(src@, start + 1, l0),
            decreases src@.len() - p,
        {
            if src[p] == 10 && l < usize::MAX {
                l = l + 1;
            }
            p = p + 1;
        }
        if p >= src.len() {
            return (
                Token { kind: TokenKind::Error, lexeme: message("Unterminated string."), line: l },
                p,
                l,
            );
        }
        p = p + 1;
        return (Token { kind: TokenKind::String, lexeme: copy_range(src, start, p), line: l }, p, l);
    }
    match single_kind(c) {
        Some(k) => {
            return (Token { kind: k, lexeme: copy_range(src, start, p), line: l }, p, l);
        },
        None => {},
    }
    let follows_equal = p < src.len() && src[p] == 61;
    if c == 33 || c == 61 || c == 60 || c == 62 {
        if follows_equal {
            p = p + 1;
        }
        kind = if c == 33 {
            if follows_equal { TokenKind::BangEqual } else { TokenKind::Bang }
        } else if c == 61 {
            if follows_equal { TokenKind::EqualEqual } else { TokenKind::Equal }
        } else if c == 60 {
            if follows_equal { TokenKind::LessEqual } else { TokenKind::Less }
        } else {
            if follows_equal { TokenKind::GreaterEqual } else { TokenKind::Greater }
        };
        return (Token { kind, lexeme: copy_range(src, start, p), line: l }, p, l);
    }
    (Token { kind: TokenKind::Error, lexeme: message("Unexpected character."), line: l }, p, l)
}

/// The tokens of a whole source text: exactly one `EOF` token, at the end.
pub fn scan_tokens(src: &[u8]) -> (r: Vec<Token>)
    ensures
        r@.len() >= 1,
        r@.last().kind == TokenKind::EOF,
        tokens_view(r@) == scan_spec(src@),
        forall|i: int| 0 <= i < r@.len() - 1 ==> #[trigger] r@[i].kind != TokenKind::EOF,
        forall|i: int|
            0 <= i < r@.len() && (#[trigger] r@[i]).kind == TokenKind::Error ==> r@[i].lexeme@
                == "Unterminated string.".spec_bytes() || r@[i].lexeme@
                == "Unexpected character.".spec_bytes(),
{
    let mut out: Vec<Token> = Vec::new();
    let mut pos: usize = 0;
    let mut line: usize = 1;
    assert(tokens_view(out@) + scan_from(src@, 0, 1) =~= scan_spec(src@));
    loop
        invariant
            pos <= src@.len(),
            tokens_view(out@) + scan_from(src@, pos as int, line) == scan_spec(src@),
            forall|i: int| 0 <= i < out@.len() ==> #[trigger] out@[i].kind != TokenKind::EOF,
            forall|i: int|
                0 <= i < out@.len() && (#[trigger] out@[i]).kind == TokenKind::Error ==> out@[i].lexeme@
                    == "Unterminated string.".spec_bytes() || out@[i].lexeme@
                    == "Unexpected character.".spec_bytes(),
        decreases src@.len() - pos,
    {
        let (tok, next, l) = scan_token(src, pos, line);
        let ghost before = out@;
        if tok.kind == TokenKind::EOF {
            out.push(tok);
            assert(tokens_view(out@) =~= tokens_view(before) + scan_from(src@, pos as int, line));
            return out;
        }
        out.push(tok);
        assert(tokens_view(out@) =~= tokens_view(before).push(token_view(tok)));
        assert(scan_from(src@, pos as int, line) == seq![token_view(tok)] + scan_from(src@, next as int, l));
        assert(tokens_view(out@) + scan_from(src@, next as int, l) =~= tokens_view(before) + scan_from(src@, pos as int, line));
        pos = next;
        line = l;
    }
}

} // verus!
