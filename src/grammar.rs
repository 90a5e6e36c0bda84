use vstd::prelude::*;

use crate::syntax::{Ast, Expected, Failure};
use crate::text::strip_whitespace;

verus! {

/// A parse of a prefix starting at a given position: the tree and the position
/// after it, or why there is none.
pub type Parsed = Result<(Ast, int), Failure>;

/// A parsed `clamp` bound: `None` for the open bound `_`.
pub type BoundParsed = Result<(Option<Box<Ast>>, int), Failure>;

pub open spec fn is_digit(c: char) -> bool {
    '0' <= c && c <= '9'
}

pub open spec fn is_number_char(c: char) -> bool {
    is_digit(c) || c == '.'
}

/// `digit+ ('.' digit+)?`: digits and at most one point, with a digit at each end.
pub open spec fn unsigned_decimal(t: Seq<char>) -> bool {
    &&& t.len() > 0
    &&& is_digit(t[0])
    &&& is_digit(t.last())
    &&& forall|i: int| 0 <= i < t.len() ==> is_number_char(#[trigger] t[i])
    &&& forall|i: int, j: int|
        0 <= i < t.len() && 0 <= j < t.len() && #[trigger] t[i] == '.' && #[trigger] t[j] == '.'
            ==> i == j
}

/// A number literal: an unsigned decimal, optionally preceded by one sign.
pub open spec fn is_number_text(t: Seq<char>) -> bool {
    if t.len() > 0 && (t[0] == '+' || t[0] == '-') {
        unsigned_decimal(t.skip(1))
    } else {
        unsigned_decimal(t)
    }
}

/// The first position at or after `i` that does not hold a digit or a point.
pub open spec fn number_end(s: Seq<char>, i: int) -> int
    decreases s.len() - i,
{
    if 0 <= i < s.len() && is_number_char(s[i]) {
        number_end(s, i + 1)
    } else {
        i
    }
}

/// Whether a parse that started at `from` stopped at `to`, further on and within `s`.
/// Every successful parse does (the `read_` functions of the parser prove it beside
/// their results); the definitions below test it only to be well-founded.
pub open spec fn advanced(s: Seq<char>, from: int, to: int) -> bool {
    from < to <= s.len()
}

/// A number token at `pos`: the character there and the digits and points after it.
pub open spec fn parse_number(s: Seq<char>, pos: int) -> Parsed {
    let end = number_end(s, pos + 1);
    let t = s.subrange(pos, end);
    if is_number_text(t) {
        Ok((Ast::Number(t), end))
    } else {
        Err(Failure::InvalidNumber(t))
    }
}

/// `expression := term (('+' | '-') term)*`, folded to the left.
pub open spec fn parse_expression(s: Seq<char>, pos: int) -> Parsed
    decreases s.len() - pos, 5int,
{
    match parse_term(s, pos) {
        Err(f) => Err(f),
        Ok((lhs, p)) => if advanced(s, pos, p) {
            parse_expression_rest(s, lhs, p)
        } else {
            Err(Failure::UnexpectedEndOfInput)
        },
    }
}

/// The `(('+' | '-') term)*` part of an expression, after `lhs`.
pub open spec fn parse_expression_rest(s: Seq<char>, lhs: Ast, p: int) -> Parsed
    decreases s.len() - p, 4int,
{
    if 0 <= p < s.len() && (s[p] == '+' || s[p] == '-') {
        match parse_term(s, p + 1) {
            Err(f) => Err(f),
            Ok((rhs, q)) => if advanced(s, p, q) {
                let e = if s[p] == '+' {
                    Ast::Add(Box::new(lhs), Box::new(rhs))
                } else {
                    Ast::Sub(Box::new(lhs), Box::new(rhs))
                };
                parse_expression_rest(s, e, q)
            } else {
                Err(Failure::UnexpectedEndOfInput)
            },
        }
    } else {
        Ok((lhs, p))
    }
}

/// `term := operand (('*' | '/') operand)*`, folded to the left.
pub open spec fn parse_term(s: Seq<char>, pos: int) -> Parsed
    decreases s.len() - pos, 3int,
{
    match parse_operand(s, pos) {
        Err(f) => Err(f),
        Ok((lhs, p)) => if advanced(s, pos, p) {
            parse_term_rest(s, lhs, p)
        } else {
            Err(Failure::UnexpectedEndOfInput)
        },
    }
}

/// The `(('*' | '/') operand)*` part of a term, after `lhs`.
pub open spec fn parse_term_rest(s: Seq<char>, lhs: Ast, p: int) -> Parsed
    decreases s.len() - p, 2int,
{
    if 0 <= p < s.len() && (s[p] == '*' || s[p] == '/') {
        match parse_operand(s, p + 1) {
            Err(f) => Err(f),
            Ok((rhs, q)) => if advanced(s, p, q) {
                let e = if s[p] == '*' {
                    Ast::Mul(Box::new(lhs), Box::new(rhs))
                } else {
                    Ast::Div(Box::new(lhs), Box::new(rhs))
                };
                parse_term_rest(s, e, q)
            } else {
                Err(Failure::UnexpectedEndOfInput)
            },
        }
    } else {
        Ok((lhs, p))
    }
}

/// `operand := 'clamp' ... | '(' expression ')' | number`, chosen by the character
/// at `pos`: `c` starts a `clamp` call, `(` a group, anything else a number.
pub open spec fn parse_operand(s: Seq<char>, pos: int) -> Parsed
    decreases s.len() - pos, 1int,
{
    if pos >= s.len() {
        Err(Failure::UnexpectedEndOfInput)
    } else if s[pos] == 'c' {
        parse_clamp(s, pos)
    } else if s[pos] == '(' {
        match parse_expression(s, pos + 1) {
            Err(f) => Err(f),
            Ok((e, p)) => if 0 <= p < s.len() && s[p] == ')' {
                Ok((e, p + 1))
            } else {
                Err(Failure::ExpectedCharacter(Expected::CloseParen))
            },
        }
    } else {
        parse_number(s, pos)
    }
}

/// `'clamp' '(' bound ',' expression ',' bound ')'` at `pos`.
pub open spec fn parse_clamp(s: Seq<char>, pos: int) -> Parsed
    decreases s.len() - pos, 0int,
{
    if !(0 <= pos && pos + 5 <= s.len() && s.subrange(pos, pos + 5) == seq!['c', 'l', 'a', 'm', 'p']) {
        Err(Failure::ExpectedCharacter(Expected::Clamp))
    } else if !(pos + 5 < s.len() && s[pos + 5] == '(') {
        Err(Failure::ExpectedCharacter(Expected::OpenParen))
    } else {
        match parse_bound(s, pos + 6) {
            Err(f) => Err(f),
            Ok((lo, p1)) => if !advanced(s, pos, p1) {
                Err(Failure::UnexpectedEndOfInput)
            } else if !(p1 < s.len() && s[p1] == ',') {
                Err(Failure::ExpectedCharacter(Expected::Comma))
            } else {
                match parse_expression(s, p1 + 1) {
                    Err(f) => Err(f),
                    Ok((v, p2)) => if !advanced(s, pos, p2) {
                        Err(Failure::UnexpectedEndOfInput)
                    } else if !(p2 < s.len() && s[p2] == ',') {
                        Err(Failure::ExpectedCharacter(Expected::Comma))
                    } else {
                        match parse_bound(s, p2 + 1) {
                            Err(f) => Err(f),
                            Ok((hi, p3)) => if 0 <= p3 < s.len() && s[p3] == ')' {
                                Ok((Ast::Clamp(lo, Box::new(v), hi), p3 + 1))
                            } else {
                                Err(Failure::ExpectedCharacter(Expected::CloseParen))
                            },
                        }
                    },
                }
            },
        }
    }
}

/// `bound := '_' | expression` at `p`.
pub open spec fn parse_bound(s: Seq<char>, p: int) -> BoundParsed
    decreases s.len() - p, 6int,
{
    if p >= s.len() {
        Err(Failure::UnexpectedEndOfInput)
    } else if s[p] == '_' {
        Ok((None, p + 1))
    } else {
        match parse_expression(s, p) {
            Err(f) => Err(f),
            Ok((e, q)) => Ok((Some(Box::new(e)), q)),
        }
    }
}

/// The whole text: white space removed, then one expression that must use up
/// every remaining character.
pub open spec fn parse_text(s: Seq<char>) -> Result<Ast, Failure> {
    let t = strip_whitespace(s);
    match parse_expression(t, 0) {
        Err(f) => Err(f),
        Ok((e, p)) => if 0 <= p < t.len() {
            Err(Failure::UnexpectedCharacter(t[p]))
        } else {
            Ok(e)
        },
    }
}

} // verus!
