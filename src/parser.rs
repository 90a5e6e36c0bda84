use vstd::prelude::*;

use crate::grammar::{
    is_digit, unsigned_decimal, is_number_char, is_number_text, number_end, parse_bound, parse_clamp, parse_expression,
    parse_expression_rest, parse_number, parse_operand, parse_term, parse_term_rest, parse_text,
    BoundParsed, Parsed,
};
use crate::syntax::{Ast, Expected, Expr, Failure, ParseError};
use crate::text::{chars_of, string_of, strip_spaces, substitute_chars, substituted};

verus! {

/// What an executable parse step stands for.
pub open spec fn outcome(r: Result<(Expr, usize), ParseError>) -> Parsed {
    match r {
        Ok((e, p)) => Ok((e.model(), p as int)),
        Err(f) => Err(f.model()),
    }
}

/// A successful step ends after its start and within the input.
pub open spec fn moved(r: Result<(Expr, usize), ParseError>, pos: int, len: int) -> bool {
    match r {
        Ok((_, p)) => pos < p <= len,
        Err(_) => true,
    }
}

/// What a whole parse stands for.
pub open spec fn result_model(r: Result<Expr, ParseError>) -> Result<Ast, Failure> {
    match r {
        Ok(e) => Ok(e.model()),
        Err(f) => Err(f.model()),
    }
}

fn is_digit_char(c: char) -> (r: bool)
    ensures
        r == is_digit(c),
{
    '0' <= c && c <= '9'
}

/// Whether `tokens[start..end]` is a number literal.
fn is_number_at(tokens: &Vec<char>, start: usize, end: usize) -> (r: bool)
    requires
        start <= end <= tokens@.len(),
    ensures
        r == is_number_text(tokens@.subrange(start as int, end as int)),
{
    let ghost t = tokens@.subrange(start as int, end as int);
    let mut b = start;
    if b < end && (tokens[b] == '+' || tokens[b] == '-') {
        b = b + 1;
    }
    let ghost u = tokens@.subrange(b as int, end as int);
    proof {
        if b > start {
            assert(t[0] == tokens@[start as int]);
            assert(t.skip(1) =~= u);
        } else {
            assert(t =~= u);
            if t.len() > 0 {
                assert(t[0] == tokens@[start as int]);
            }
        }
        assert(is_number_text(t) == unsigned_decimal(u));
    }
    if b == end || !is_digit_char(tokens[b]) || !is_digit_char(tokens[end - 1]) {
        proof {
            if b < end {
                assert(u[0] == tokens@[b as int]);
                assert(u.last() == tokens@[end - 1]);
            }
        }
        return false;
    }
    let mut seen_dot = false;
    let mut i = b;
    while i < end
        invariant
            b <= i <= end <= tokens@.len(),
            t == tokens@.subrange(start as int, end as int),
            u == tokens@.subrange(b as int, end as int),
            is_number_text(t) == unsigned_decimal(u),
            forall|k: int| b <= k < i ==> is_number_char(#[trigger] tokens@[k]),
            seen_dot ==> exists|k: int| b <= k < i && tokens@[k] == '.',
            !seen_dot ==> forall|k: int| b <= k < i ==> tokens@[k] != '.',
            forall|k1: int, k2: int|
                b <= k1 < i && b <= k2 < i && tokens@[k1] == '.' && tokens@[k2] == '.' ==> k1 == k2,
        decreases end - i,
    {
        let c = tokens[i];
        if c == '.' {
            if seen_dot {
                let ghost k = choose|k: int| b <= k < i && tokens@[k] == '.';
                assert(u[k - b] == '.' && u[i - b] == '.');
                return false;
            }
            seen_dot = true;
        } else if !is_digit_char(c) {
            assert(u[i - b] == c);
            return false;
        }
        i = i + 1;
    }
    assert forall|k: int| 0 <= k < u.len() implies is_number_char(#[trigger] u[k]) by {
        assert(u[k] == tokens@[b + k]);
    }
    assert forall|k1: int, k2: int|
        0 <= k1 < u.len() && 0 <= k2 < u.len() && #[trigger] u[k1] == '.' && #[trigger] u[k2] == '.'
        implies k1 == k2 by {
        assert(u[k1] == tokens@[b + k1] && u[k2] == tokens@[b + k2]);
    }
    assert(u[0] == tokens@[b as int]);
    assert(u.last() == tokens@[end - 1]);
    true
}

/// A number token at `pos`.
fn read_number(tokens: &Vec<char>, pos: usize) -> (r: Result<(Expr, usize), ParseError>)
    requires
        pos < tokens@.len(),
    ensures
        outcome(r) == parse_number(tokens@, pos as int),
        moved(r, pos as int, tokens@.len() as int),
{
    let n = tokens.len();
    let mut end = pos + 1;
    while end < tokens.len() && (is_digit_char(tokens[end]) || tokens[end] == '.')
        invariant
            pos < end <= tokens@.len(),
            number_end(tokens@, pos + 1) == number_end(tokens@, end as int),
        decreases tokens@.len() - end,
    {
        end = end + 1;
    }
    let text = string_of(tokens, pos, end);
    if is_number_at(tokens, pos, end) {
        Ok((Expr::Number(text), end))
    } else {
        Err(ParseError::InvalidNumber(text))
    }
}

/// Reads `expression := term (('+' | '-') term)*` from `tokens` at `pos`, folding
/// to the left, and returns the tree with the position after it.
pub fn read_expression(tokens: &Vec<char>, pos: usize) -> (r: Result<(Expr, usize), ParseError>)
    requires
        pos <= tokens@.len(),
    ensures
        outcome(r) == parse_expression(tokens@, pos as int),
        moved(r, pos as int, tokens@.len() as int),
    decreases tokens@.len() - pos, 5int,
{
    let (mut lhs, mut p) = match read_term(tokens, pos) {
        Ok(x) => x,
        Err(f) => return Err(f),
    };
    while p < tokens.len() && (tokens[p] == '+' || tokens[p] == '-')
        invariant
            pos < p <= tokens@.len(),
            parse_expression(tokens@, pos as int) == parse_expression_rest(tokens@, lhs.model(), p as int),
        decreases tokens@.len() - p,
    {
        let op = tokens[p];
        let (rhs, q) = match read_term(tokens, p + 1) {
            Ok(x) => x,
            Err(f) => return Err(f),
        };
        lhs = if op == '+' {
            Expr::Add(Box::new(lhs), Box::new(rhs))
        } else {
            Expr::Sub(Box::new(lhs), Box::new(rhs))
        };
        p = q;
    }
    Ok((lhs, p))
}

/// Reads `term := operand (('*' | '/') operand)*` from `tokens` at `pos`, folding
/// to the left, and returns the tree with the position after it.
pub fn read_term(tokens: &Vec<char>, pos: usize) -> (r: Result<(Expr, usize), ParseError>)
    requires
        pos <= tokens@.len(),
    ensures
        outcome(r) == parse_term(tokens@, pos as int),
        moved(r, pos as int, tokens@.len() as int),
    decreases tokens@.len() - pos, 3int,
{
    let (mut lhs, mut p) = match read_operand(tokens, pos) {
        Ok(x) => x,
        Err(f) => return Err(f),
    };
    while p < tokens.len() && (tokens[p] == '*' || tokens[p] == '/')
        invariant
            pos < p <= tokens@.len(),
            parse_term(tokens@, pos as int) == parse_term_rest(tokens@, lhs.model(), p as int),
        decreases tokens@.len() - p,
    {
        let op = tokens[p];
        let (rhs, q) = match read_operand(tokens, p + 1) {
            Ok(x) => x,
            Err(f) => return Err(f),
        };
        lhs = if op == '*' {
            Expr::Mul(Box::new(lhs), Box::new(rhs))
        } else {
            Expr::Div(Box::new(lhs), Box::new(rhs))
        };
        p = q;
    }
    Ok((lhs, p))
}

/// Reads one operand from `tokens` at `pos`: a `clamp` call, a parenthesised
/// expression or a number, and returns the tree with the position after it.
pub fn read_operand(tokens: &Vec<char>, pos: usize) -> (r: Result<(Expr, usize), ParseError>)
    requires
        pos <= tokens@.len(),
    ensures
        outcome(r) == parse_operand(tokens@, pos as int),
        moved(r, pos as int, tokens@.len() as int),
    decreases tokens@.len() - pos, 1int,
{
    if pos >= tokens.len() {
        return Err(ParseError::UnexpectedEndOfInput);
    }
    if tokens[pos] == 'c' {
        read_clamp(tokens, pos)
    } else if tokens[pos] == '(' {
        let (e, p) = match read_expression(tokens, pos + 1) {
            Ok(x) => x,
            Err(f) => return Err(f),
        };
        if p < tokens.len() && tokens[p] == ')' {
            Ok((e, p + 1))
        } else {
            Err(ParseError::ExpectedCharacter(Expected::CloseParen))
        }
    } else {
        read_number(tokens, pos)
    }
}

/// What an executable bound parse stands for.
pub open spec fn bound_outcome(r: Result<(Option<Box<Expr>>, usize), ParseError>) -> BoundParsed {
    match r {
        Ok((Some(e), p)) => Ok((Some(Box::new(e.model())), p as int)),
        Ok((None, p)) => Ok((None, p as int)),
        Err(f) => Err(f.model()),
    }
}

/// Reads a `clamp` bound: `_` for an open bound, else an expression.
fn read_bound(tokens: &Vec<char>, p: usize) -> (r: Result<(Option<Box<Expr>>, usize), ParseError>)
    requires
        p <= tokens@.len(),
    ensures
        bound_outcome(r) == parse_bound(tokens@, p as int),
        r is Ok ==> p < r->Ok_0.1 <= tokens@.len(),
    decreases tokens@.len() - p, 6int,
{
    if p >= tokens.len() {
        return Err(ParseError::UnexpectedEndOfInput);
    }
    if tokens[p] == '_' {
        Ok((None, p + 1))
    } else {
        match read_expression(tokens, p) {
            Ok((e, q)) => Ok((Some(Box::new(e)), q)),
            Err(f) => Err(f),
        }
    }
}

/// Reads `clamp(low, value, high)` at `pos`.
#[verifier::spinoff_prover]
#[verifier::rlimit(50)]
fn read_clamp(tokens: &Vec<char>, pos: usize) -> (r: Result<(Expr, usize), ParseError>)
    requires
        pos < tokens@.len(),
    ensures
        outcome(r) == parse_clamp(tokens@, pos as int),
        moved(r, pos as int, tokens@.len() as int),
    decreases tokens@.len() - pos, 0int,
{
    let n = tokens.len();
    if !(n - pos >= 5 && tokens[pos] == 'c' && tokens[pos + 1] == 'l' && tokens[pos + 2] == 'a'
        && tokens[pos + 3] == 'm' && tokens[pos + 4] == 'p') {
        proof {
            if pos + 5 <= n {
                let w = tokens@.subrange(pos as int, pos + 5);
                if w == seq!['c', 'l', 'a', 'm', 'p'] {
                    assert(w[0] == tokens@[pos as int] && w[1] == tokens@[pos + 1]
                        && w[2] == tokens@[pos + 2] && w[3] == tokens@[pos + 3]
                        && w[4] == tokens@[pos + 4]);
                }
            }
        }
        return Err(ParseError::ExpectedCharacter(Expected::Clamp));
    }
    assert(tokens@.subrange(pos as int, pos + 5) =~= seq!['c', 'l', 'a', 'm', 'p']);
    if !(pos + 5 < n && tokens[pos + 5] == '(') {
        return Err(ParseError::ExpectedCharacter(Expected::OpenParen));
    }
    let (lo, p1) = match read_bound(tokens, pos + 6) {
        Ok(x) => x,
        Err(f) => return Err(f),
    };
    if !(p1 < n && tokens[p1] == ',') {
        return Err(ParseError::ExpectedCharacter(Expected::Comma));
    }
    let (v, p2) = match read_expression(tokens, p1 + 1) {
        Ok(x) => x,
        Err(f) => return Err(f),
    };
    if !(p2 < n && tokens[p2] == ',') {
        return Err(ParseError::ExpectedCharacter(Expected::Comma));
    }
    let (hi, p3) = match read_bound(tokens, p2 + 1) {
        Ok(x) => x,
        Err(f) => return Err(f),
    };
    if p3 < n && tokens[p3] == ')' {
        Ok((Expr::Clamp(lo, Box::new(v), hi), p3 + 1))
    } else {
        Err(ParseError::ExpectedCharacter(Expected::CloseParen))
    }
}

/// Parses the characters `chars`: white space is dropped, then one expression
/// must use up all that is left.
pub fn parse_chars(chars: &Vec<char>) -> (r: Result<Expr, ParseError>)
    ensures
        result_model(r) == parse_text(chars@),
{
    let tokens = strip_spaces(chars);
    let (e, p) = match read_expression(&tokens, 0) {
        Ok(x) => x,
        Err(f) => return Err(f),
    };
    if p < tokens.len() {
        Err(ParseError::UnexpectedCharacter(tokens[p]))
    } else {
        Ok(e)
    }
}

/// Parses the expression text `expr`, which must hold no keyword.
pub fn eval(expr: &str) -> (r: Result<Expr, ParseError>)
    ensures
        result_model(r) == parse_text(expr@),
{
    parse_chars(&chars_of(expr))
}

/// Parses the expression text `math` after its keywords have been replaced by
/// the values that `width` and `height` give them.
pub fn parse_math(math: String, width: i32, height: i32) -> (r: Result<Expr, ParseError>)
    ensures
        result_model(r) == parse_text(substituted(math@, width as int, height as int)),
{
    let chars = chars_of(math.as_str());
    parse_chars(&substitute_chars(&chars, width, height))
}

} // verus!
