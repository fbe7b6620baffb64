use vstd::prelude::*;

use crate::ast::{Node, Operator, Sign};
use vstd::string::StringSliceAdditionalSpecFns;

verus! {

/// A lexical token. A number holds the byte range of its digits in the source.
#[derive(Debug, Copy, Clone, PartialEq, Eq, Structural)]
pub enum Token {
    Number(usize, usize),
    Plus,
    Minus,
    Star,
    Slash,
    LParen,
    RParen,
    Semicolon,
}

/// Why source text was rejected.
#[derive(Debug, Copy, Clone, PartialEq, Eq, Structural)]
pub enum ParseError {
    /// A byte that starts no token.
    InvalidCharacter,
    /// Tokens that do not form a program.
    InvalidSyntax,
}

pub open spec fn is_digit(c: u8) -> bool {
    48 <= c <= 57
}

pub open spec fn is_space(c: u8) -> bool {
    c == 32 || c == 9 || c == 10 || c == 13
}

/// The token a one-byte symbol stands for.
pub open spec fn symbol_token(c: u8) -> Option<Token> {
    if c == 43 {
        Some(Token::Plus)
    } else if c == 45 {
        Some(Token::Minus)
    } else if c == 42 {
        Some(Token::Star)
    } else if c == 47 {
        Some(Token::Slash)
    } else if c == 40 {
        Some(Token::LParen)
    } else if c == 41 {
        Some(Token::RParen)
    } else if c == 59 {
        Some(Token::Semicolon)
    } else {
        None
    }
}

/// The end of the run of digits that starts at `i`.
pub open spec fn digits_end(s: Seq<u8>, i: int) -> int
    decreases s.len() - i,
{
    if 0 <= i < s.len() && is_digit(s[i]) {
        digits_end(s, i + 1)
    } else {
        i
    }
}

/// The end of the number literal at `i`: digits, then optionally a point
/// followed by digits.
pub open spec fn number_end(s: Seq<u8>, i: int) -> int {
    let d = digits_end(s, i);
    if 0 <= d && d + 1 < s.len() && s[d] == 46 && is_digit(s[d + 1]) {
        digits_end(s, d + 1)
    } else {
        d
    }
}

pub open spec fn prepend<T>(a: Seq<T>, rest: Option<Seq<T>>) -> Option<Seq<T>> {
    match rest {
        Some(r) => Some(a + r),
        None => None,
    }
}

/// The tokens of `s` from `i` on; white space separates tokens and is
/// dropped.
pub open spec fn tokenize(s: Seq<u8>, i: int) -> Option<Seq<Token>>
    decreases s.len() - i,
{
    if i < 0 || i >= s.len() {
        Some(Seq::empty())
    } else if is_space(s[i]) {
        tokenize(s, i + 1)
    } else if symbol_token(s[i]) is Some {
        prepend(seq![symbol_token(s[i])->0], tokenize(s, i + 1))
    } else if is_digit(s[i]) {
        let e = number_end(s, i);
        if e <= i || e > s.len() {
            None
        } else {
            prepend(seq![Token::Number(i as usize, e as usize)], tokenize(s, e))
        }
    } else {
        None
    }
}

proof fn lemma_digits_end(s: Seq<u8>, i: int)
    requires
        0 <= i <= s.len(),
    ensures
        i <= digits_end(s, i) <= s.len(),
        forall|k: int| i <= k < digits_end(s, i) ==> is_digit(#[trigger] s[k]),
        digits_end(s, i) < s.len() ==> !is_digit(s[digits_end(s, i)]),
    decreases s.len() - i,
{
    if i < s.len() && is_digit(s[i]) {
        lemma_digits_end(s, i + 1);
    }
}

fn scan_digits(s: &[u8], i: usize) -> (r: usize)
    requires
        i <= s@.len(),
    ensures
        r == digits_end(s@, i as int),
{
    let mut j = i;
    while j < s.len() && 48 <= s[j] && s[j] <= 57
        invariant
            i <= j <= s@.len(),
            digits_end(s@, i as int) == digits_end(s@, j as int),
        decreases s@.len() - j,
    {
        j = j + 1;
    }
    j
}

/// Splits source bytes into tokens.
pub fn tokenize_bytes(s: &[u8]) -> (r: Result<Vec<Token>, ParseError>)
    ensures
        match tokenize(s@, 0) {
            Some(t) => r is Ok && r->Ok_0@ == t && tokens_within(t, s@.len()),
            None => r == Err::<Vec<Token>, ParseError>(ParseError::InvalidCharacter),
        },
{
    let mut toks: Vec<Token> = Vec::new();
    let mut i: usize = 0;
    while i < s.len()
        invariant
            i <= s@.len(),
            tokenize(s@, 0) == prepend(toks@, tokenize(s@, i as int)),
            tokens_within(toks@, s@.len()),
        decreases s@.len() - i,
    {
        let c = s[i];
        if c == 32 || c == 9 || c == 10 || c == 13 {
            i = i + 1;
        } else if 48 <= c && c <= 57 {
            proof {
                lemma_digits_end(s@, i as int);
            }
            let d = scan_digits(s, i);
            let mut e = d;
            if d < s.len() && s[d] == 46 && d + 1 < s.len() && 48 <= s[d + 1] && s[d + 1] <= 57 {
                proof {
                    lemma_digits_end(s@, d + 1);
                }
                e = scan_digits(s, d + 1);
            }
            proof {
                let t = Token::Number(i, e);
                assert(prepend(toks@, prepend(seq![t], tokenize(s@, e as int))) == prepend(
                    toks@.push(t),
                    tokenize(s@, e as int),
                )) by {
                    assert(toks@ + seq![t] =~= toks@.push(t));
                    if let Some(rest) = tokenize(s@, e as int) {
                        assert(toks@ + (seq![t] + rest) =~= toks@.push(t) + rest);
                    }
                }
            }
            toks.push(Token::Number(i, e));
            i = e;
        } else {
            let t = if c == 43 {
                Token::Plus
            } else if c == 45 {
                Token::Minus
            } else if c == 42 {
                Token::Star
            } else if c == 47 {
                Token::Slash
            } else if c == 40 {
                Token::LParen
            } else if c == 41 {
                Token::RParen
            } else if c == 59 {
                Token::Semicolon
            } else {
                return Err(ParseError::InvalidCharacter);
            };
            proof {
                assert(prepend(toks@, prepend(seq![t], tokenize(s@, i + 1))) == prepend(
                    toks@.push(t),
                    tokenize(s@, i + 1),
                )) by {
                    if let Some(rest) = tokenize(s@, i + 1) {
                        assert(toks@ + (seq![t] + rest) =~= toks@.push(t) + rest);
                    }
                }
            }
            toks.push(t);
            i = i + 1;
        }
    }
    assert(toks@ + Seq::<Token>::empty() =~= toks@);
    Ok(toks)
}

/// Every number token lies within a source of `len` bytes.
pub open spec fn tokens_within(t: Seq<Token>, len: nat) -> bool {
    forall|k: int|
        0 <= k < t.len() ==> match #[trigger] t[k] {
            Token::Number(a, b) => a < b <= len,
            _ => true,
        }
}

/// A caller-supplied literal conversion is usable when it accepts every
/// digit string and gives equal strings one value.
pub open spec fn literal_functional<L: Fn(Vec<u8>) -> u64>(lit: L) -> bool {
    &&& forall|d: Vec<u8>| #[trigger] lit.requires((d,))
    &&& forall|d1: Vec<u8>, d2: Vec<u8>, r1: u64, r2: u64|
        d1@ == d2@ && #[trigger] lit.ensures((d1,), r1) && #[trigger] lit.ensures((d2,), r2) ==> r1
            == r2
}

/// The function from digit strings to bit patterns that a functional literal
/// conversion computes.
pub open spec fn literal_meaning<L: Fn(Vec<u8>) -> u64>(lit: L) -> spec_fn(Seq<u8>) -> u64 {
    |d: Seq<u8>| choose|r: u64| converts_to(lit, d, r)
}

/// Some digit string with these bytes is converted to `r`.
pub open spec fn converts_to<L: Fn(Vec<u8>) -> u64>(lit: L, d: Seq<u8>, r: u64) -> bool {
    exists|v: Vec<u8>| v@ == d && #[trigger] lit.ensures((v,), r)
}

/// Converts the literal in `src[a..b]`.
fn convert<L: Fn(Vec<u8>) -> u64>(lit: &L, src: &[u8], a: usize, b: usize) -> (r: u64)
    requires
        literal_functional(*lit),
        a <= b <= src@.len(),
    ensures
        r == literal_meaning(*lit)(src@.subrange(a as int, b as int)),
{
    let mut digits: Vec<u8> = Vec::new();
    let mut k = a;
    while k < b
        invariant
            a <= k <= b <= src@.len(),
            digits@ == src@.subrange(a as int, k as int),
        decreases b - k,
    {
        digits.push(src[k]);
        proof {
            assert(src@.subrange(a as int, k + 1) =~= src@.subrange(a as int, k as int).push(src@[k as int]));
        }
        k = k + 1;
    }
    let ghost d = digits;
    let r = lit(digits);
    proof {
        let seq = src@.subrange(a as int, b as int);
        assert(lit.ensures((d,), r));
        assert(converts_to(*lit, seq, r));
        let c = literal_meaning(*lit)(seq);
        let v2 = choose|v2: Vec<u8>| v2@ == seq && lit.ensures((v2,), c);
        assert(lit.ensures((d,), r));
    }
    r
}

pub type SpecLit = spec_fn(Seq<u8>) -> u64;

pub open spec fn at(t: Seq<Token>, i: int) -> Option<Token> {
    if 0 <= i < t.len() {
        Some(t[i])
    } else {
        None
    }
}

/// A literal or a parenthesised expression.
pub open spec fn p_primary(t: Seq<Token>, i: int, src: Seq<u8>, g: SpecLit) -> Option<(Node, int)>
    decreases t.len() - i, 0nat,
{
    if 0 <= i < t.len() {
        match t[i] {
            Token::Number(a, b) => Some((Node::Number(g(src.subrange(a as int, b as int))), i + 1)),
            Token::LParen => match p_expr(t, i + 1, src, g) {
                Some((e, j)) => if at(t, j) == Some(Token::RParen) {
                    Some((e, j + 1))
                } else {
                    None
                },
                None => None,
            },
            _ => None,
        }
    } else {
        None
    }
}

/// A primary preceded by any number of prefix signs.
pub open spec fn p_unary(t: Seq<Token>, i: int, src: Seq<u8>, g: SpecLit) -> Option<(Node, int)>
    decreases t.len() - i, 1nat,
{
    if 0 <= i < t.len() && (t[i] == Token::Plus || t[i] == Token::Minus) {
        let op = if t[i] == Token::Plus {
            Sign::Positive
        } else {
            Sign::Negative
        };
        match p_unary(t, i + 1, src, g) {
            Some((c, j)) => Some((Node::UnaryExpr { op, child: Box::new(c) }, j)),
            None => None,
        }
    } else {
        p_primary(t, i, src, g)
    }
}

/// The multiplicative operator at `i`, if one is there.
pub open spec fn mul_op(t: Seq<Token>, i: int) -> Option<Operator> {
    if at(t, i) == Some(Token::Star) {
        Some(Operator::Mul)
    } else if at(t, i) == Some(Token::Slash) {
        Some(Operator::Div)
    } else {
        None
    }
}

/// The additive operator at `i`, if one is there.
pub open spec fn add_op(t: Seq<Token>, i: int) -> Option<Operator> {
    if at(t, i) == Some(Token::Plus) {
        Some(Operator::Add)
    } else if at(t, i) == Some(Token::Minus) {
        Some(Operator::Sub)
    } else {
        None
    }
}

/// Folds `(* | /) unary` pairs onto `acc`, left to right.
pub open spec fn p_term_rest(t: Seq<Token>, i: int, acc: Node, src: Seq<u8>, g: SpecLit) -> Option<
    (Node, int),
>
    decreases t.len() - i, 2nat,
{
    match mul_op(t, i) {
        None => Some((acc, i)),
        Some(op) => match p_unary(t, i + 1, src, g) {
            Some((rhs, j)) => if j <= i || j > t.len() {
                None
            } else {
                p_term_rest(t, j, Node::BinaryExpr { op, lhs: Box::new(acc), rhs: Box::new(rhs) }, src, g)
            },
            None => None,
        },
    }
}

/// Unary expressions joined by `*` and `/`, grouped to the left.
pub open spec fn p_term(t: Seq<Token>, i: int, src: Seq<u8>, g: SpecLit) -> Option<(Node, int)>
    decreases t.len() - i, 2nat,
{
    match p_unary(t, i, src, g) {
        Some((lhs, j)) => if j <= i || j > t.len() {
            None
        } else {
            p_term_rest(t, j, lhs, src, g)
        },
        None => None,
    }
}

/// Folds `(+ | -) term` pairs onto `acc`, left to right.
pub open spec fn p_expr_rest(t: Seq<Token>, i: int, acc: Node, src: Seq<u8>, g: SpecLit) -> Option<
    (Node, int),
>
    decreases t.len() - i, 3nat,
{
    match add_op(t, i) {
        None => Some((acc, i)),
        Some(op) => match p_term(t, i + 1, src, g) {
            Some((rhs, j)) => if j <= i || j > t.len() {
                None
            } else {
                p_expr_rest(t, j, Node::BinaryExpr { op, lhs: Box::new(acc), rhs: Box::new(rhs) }, src, g)
            },
            None => None,
        },
    }
}

/// Terms joined by `+` and `-`, grouped to the left.
pub open spec fn p_expr(t: Seq<Token>, i: int, src: Seq<u8>, g: SpecLit) -> Option<(Node, int)>
    decreases t.len() - i, 3nat,
{
    match p_term(t, i, src, g) {
        Some((lhs, j)) => if j <= i || j > t.len() {
            None
        } else {
            p_expr_rest(t, j, lhs, src, g)
        },
        None => None,
    }
}

/// A sequence of expressions separated by semicolons, with an optional
/// semicolon at the end.
pub open spec fn p_program(t: Seq<Token>, i: int, src: Seq<u8>, g: SpecLit) -> Option<Seq<Node>>
    decreases t.len() - i,
{
    if i < 0 || i >= t.len() {
        Some(Seq::empty())
    } else {
        match p_expr(t, i, src, g) {
            None => None,
            Some((e, j)) => if j <= i || j > t.len() {
                None
            } else if j == t.len() {
                Some(seq![e])
            } else if t[j] == Token::Semicolon {
                prepend(seq![e], p_program(t, j + 1, src, g))
            } else {
                None
            },
        }
    }
}

/// The trees that source bytes `s` denote, or why there are none.
pub open spec fn parse_spec(s: Seq<u8>, g: SpecLit) -> Result<Seq<Node>, ParseError> {
    match tokenize(s, 0) {
        None => Err(ParseError::InvalidCharacter),
        Some(t) => match p_program(t, 0, s, g) {
            None => Err(ParseError::InvalidSyntax),
            Some(nodes) => Ok(nodes),
        },
    }
}

/// The token index just past a parsed expression.
pub open spec fn end_of(r: Option<(Node, usize)>) -> int {
    match r {
        Some(x) => x.1 as int,
        None => 0,
    }
}

/// An executable parse result agrees with a specified one.
pub open spec fn same(r: Option<(Node, usize)>, s: Option<(Node, int)>) -> bool {
    match r {
        Some(x) => s == Some((x.0, x.1 as int)),
        None => s is None,
    }
}

fn parse_primary<L: Fn(Vec<u8>) -> u64>(t: &Vec<Token>, i: usize, src: &[u8], lit: &L) -> (r: Option<
    (Node, usize),
>)
    requires
        literal_functional(*lit),
        tokens_within(t@, src@.len()),
        i <= t@.len(),
    ensures
        same(r, p_primary(t@, i as int, src@, literal_meaning(*lit))),
        r is Some ==> i < end_of(r) <= t@.len(),
    decreases t@.len() - i, 0nat,
{
    if i >= t.len() {
        return None;
    }
    match t[i] {
        Token::Number(a, b) => {
            let v = convert(lit, src, a, b);
            Some((Node::Number(v), i + 1))
        },
        Token::LParen => match parse_binary_expr(t, i + 1, src, lit) {
            Some((e, j)) => {
                if j < t.len() && t[j] == Token::RParen {
                    Some((e, j + 1))
                } else {
                    None
                }
            },
            None => None,
        },
        _ => None,
    }
}

fn parse_unary<L: Fn(Vec<u8>) -> u64>(t: &Vec<Token>, i: usize, src: &[u8], lit: &L) -> (r: Option<
    (Node, usize),
>)
    requires
        literal_functional(*lit),
        tokens_within(t@, src@.len()),
        i <= t@.len(),
    ensures
        same(r, p_unary(t@, i as int, src@, literal_meaning(*lit))),
        r is Some ==> i < end_of(r) <= t@.len(),
    decreases t@.len() - i, 1nat,
{
    if i < t.len() && (t[i] == Token::Plus || t[i] == Token::Minus) {
        let op = if t[i] == Token::Plus {
            Sign::Positive
        } else {
            Sign::Negative
        };
        match parse_unary(t, i + 1, src, lit) {
            Some((c, j)) => Some((Node::UnaryExpr { op, child: Box::new(c) }, j)),
            None => None,
        }
    } else {
        parse_primary(t, i, src, lit)
    }
}

fn parse_mul_op(t: &Vec<Token>, i: usize) -> (r: Option<Operator>)
    ensures
        r == mul_op(t@, i as int),
{
    if i < t.len() && t[i] == Token::Star {
        Some(Operator::Mul)
    } else if i < t.len() && t[i] == Token::Slash {
        Some(Operator::Div)
    } else {
        None
    }
}

fn parse_add_op(t: &Vec<Token>, i: usize) -> (r: Option<Operator>)
    ensures
        r == add_op(t@, i as int),
{
    if i < t.len() && t[i] == Token::Plus {
        Some(Operator::Add)
    } else if i < t.len() && t[i] == Token::Minus {
        Some(Operator::Sub)
    } else {
        None
    }
}

fn parse_term_rest<L: Fn(Vec<u8>) -> u64>(
    t: &Vec<Token>,
    i: usize,
    acc: Node,
    src: &[u8],
    lit: &L,
) -> (r: Option<(Node, usize)>)
    requires
        literal_functional(*lit),
        tokens_within(t@, src@.len()),
        i <= t@.len(),
    ensures
        same(r, p_term_rest(t@, i as int, acc, src@, literal_meaning(*lit))),
        r is Some ==> i <= end_of(r) <= t@.len(),
    decreases t@.len() - i, 2nat,
{
    match parse_mul_op(t, i) {
        None => Some((acc, i)),
        Some(op) => {
            if i >= t.len() {
                return None;
            }
            match parse_unary(t, i + 1, src, lit) {
                Some((rhs, j)) => parse_term_rest(
                    t,
                    j,
                    Node::BinaryExpr { op, lhs: Box::new(acc), rhs: Box::new(rhs) },
                    src,
                    lit,
                ),
                None => None,
            }
        },
    }
}

fn parse_term<L: Fn(Vec<u8>) -> u64>(t: &Vec<Token>, i: usize, src: &[u8], lit: &L) -> (r: Option<
    (Node, usize),
>)
    requires
        literal_functional(*lit),
        tokens_within(t@, src@.len()),
        i <= t@.len(),
    ensures
        same(r, p_term(t@, i as int, src@, literal_meaning(*lit))),
        r is Some ==> i < end_of(r) <= t@.len(),
    decreases t@.len() - i, 2nat,
{
    match parse_unary(t, i, src, lit) {
        Some((lhs, j)) => parse_term_rest(t, j, lhs, src, lit),
        None => None,
    }
}

fn parse_expr_rest<L: Fn(Vec<u8>) -> u64>(
    t: &Vec<Token>,
    i: usize,
    acc: Node,
    src: &[u8],
    lit: &L,
) -> (r: Option<(Node, usize)>)
    requires
        literal_functional(*lit),
        tokens_within(t@, src@.len()),
        i <= t@.len(),
    ensures
        same(r, p_expr_rest(t@, i as int, acc, src@, literal_meaning(*lit))),
        r is Some ==> i <= end_of(r) <= t@.len(),
    decreases t@.len() - i, 3nat,
{
    match parse_add_op(t, i) {
        None => Some((acc, i)),
        Some(op) => {
            if i >= t.len() {
                return None;
            }
            match parse_term(t, i + 1, src, lit) {
                Some((rhs, j)) => parse_expr_rest(
                    t,
                    j,
                    Node::BinaryExpr { op, lhs: Box::new(acc), rhs: Box::new(rhs) },
                    src,
                    lit,
                ),
                None => None,
            }
        },
    }
}

/// Parses one expression starting at token `i`: terms joined by `+` and `-`,
/// each term unary expressions joined by `*` and `/`, every chain grouped to
/// the left. Prefix signs bind tighter than any binary operator. Returns the
/// tree and the index of the first token after it.
pub fn parse_binary_expr<L: Fn(Vec<u8>) -> u64>(
    t: &Vec<Token>,
    i: usize,
    src: &[u8],
    lit: &L,
) -> (r: Option<(Node, usize)>)
    requires
        literal_functional(*lit),
        tokens_within(t@, src@.len()),
        i <= t@.len(),
    ensures
        same(r, p_expr(t@, i as int, src@, literal_meaning(*lit))),
        r is Some ==> i < end_of(r) <= t@.len(),
    decreases t@.len() - i, 3nat,
{
    match parse_term(t, i, src, lit) {
        Some((lhs, j)) => parse_expr_rest(t, j, lhs, src, lit),
        None => None,
    }
}

/// Parses source text into one tree per expression, in source order.
/// Expressions are separated by semicolons, and a last semicolon is allowed.
/// `lit` converts the digits of an unsigned literal (`12`, `0.5`) into the
/// bit pattern of its binary64 value.
pub fn parse<L: Fn(Vec<u8>) -> u64>(source: &str, lit: &L) -> (r: Result<Vec<Node>, ParseError>)
    requires
        literal_functional(*lit),
    ensures
        match parse_spec(source.spec_bytes(), literal_meaning(*lit)) {
            Ok(nodes) => r is Ok && r->Ok_0@ == nodes,
            Err(e) => r == Err::<Vec<Node>, ParseError>(e),
        },
{
    let src = source.as_bytes();
    let t = match tokenize_bytes(src) {
        Ok(t) => t,
        Err(e) => return Err(e),
    };
    let ghost g = literal_meaning(*lit);
    let mut ast: Vec<Node> = Vec::new();
    let mut i: usize = 0;
    while i < t.len()
        invariant
            literal_functional(*lit),
            tokens_within(t@, src@.len()),
            src@ == source.spec_bytes(),
            tokenize(src@, 0) == Some(t@),
            g == literal_meaning(*lit),
            i <= t@.len(),
            p_program(t@, 0, src@, g) == prepend(ast@, p_program(t@, i as int, src@, g)),
        decreases t@.len() - i,
    {
        match parse_binary_expr(&t, i, src, lit) {
            None => return Err(ParseError::InvalidSyntax),
            Some((e, j)) => {
                let ghost rest = p_program(t@, j + 1, src@, g);
                if j == t.len() {
                    proof {
                        assert(ast@ + seq![e] =~= ast@.push(e) + Seq::<Node>::empty());
                    }
                    ast.push(e);
                    i = j;
                } else if t[j] == Token::Semicolon {
                    proof {
                        if let Some(r) = rest {
                            assert(ast@ + (seq![e] + r) =~= ast@.push(e) + r);
                        }
                    }
                    ast.push(e);
                    i = j + 1;
                } else {
                    return Err(ParseError::InvalidSyntax);
                }
            },
        }
    }
    assert(ast@ + Seq::<Node>::empty() =~= ast@);
    Ok(ast)
}

} // verus!
