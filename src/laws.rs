use vstd::prelude::*;

use crate::grammar::{
    Parsed,
    is_digit, is_number_char, is_number_text, number_end, parse_expression, parse_expression_rest,
    parse_number, parse_operand, parse_term, parse_term_rest, parse_text, unsigned_decimal,
};
use crate::parser::result_model;
use crate::syntax::{Ast, Expr, Failure, ParseError};
use crate::text::{decimal, is_whitespace, occurs_at, replace_all, strip_whitespace, substituted};

verus! {

/// The tree of `lhs op rhs` for one of the four operators.
pub open spec fn binary(op: char, lhs: Ast, rhs: Ast) -> Ast {
    if op == '+' {
        Ast::Add(Box::new(lhs), Box::new(rhs))
    } else if op == '-' {
        Ast::Sub(Box::new(lhs), Box::new(rhs))
    } else if op == '*' {
        Ast::Mul(Box::new(lhs), Box::new(rhs))
    } else {
        Ast::Div(Box::new(lhs), Box::new(rhs))
    }
}

/// A parse that produced `e` and stopped at `p`.
pub open spec fn reached(e: Ast, p: int) -> Parsed {
    Ok((e, p))
}

pub open spec fn is_operator(c: char) -> bool {
    c == '+' || c == '-' || c == '*' || c == '/'
}

/// Replacing a pattern whose first character does not occur leaves the text as it is.
proof fn lemma_replace_absent(s: Seq<char>, pat: Seq<char>, rep: Seq<char>)
    requires
        pat.len() > 0,
        forall|i: int| 0 <= i < s.len() ==> s[i] != pat[0],
    ensures
        replace_all(s, pat, rep) == s,
    decreases s.len(),
{
    if s.len() > 0 {
        if occurs_at(s, pat, 0) {
            assert(s.subrange(0, pat.len() as int)[0] == s[0]);
        }
        lemma_replace_absent(s.skip(1), pat, rep);
        assert(seq![s[0]] + s.skip(1) =~= s);
    }
}

/// White space is removed piecewise.
proof fn lemma_strip_concat(x: Seq<char>, y: Seq<char>)
    ensures
        strip_whitespace(x + y) == strip_whitespace(x) + strip_whitespace(y),
    decreases y.len(),
{
    if y.len() == 0 {
        assert(x + y =~= x);
        assert(strip_whitespace(x) + strip_whitespace(y) =~= strip_whitespace(x));
    } else {
        assert((x + y).drop_last() =~= x + y.drop_last());
        assert((x + y).last() == y.last());
        lemma_strip_concat(x, y.drop_last());
        if is_whitespace(y.last()) {
        } else {
            assert(strip_whitespace(x) + strip_whitespace(y.drop_last()).push(y.last())
                =~= (strip_whitespace(x) + strip_whitespace(y.drop_last())).push(y.last()));
        }
    }
}

/// A text without white space is its own stripped form.
proof fn lemma_strip_none(s: Seq<char>)
    requires
        forall|i: int| 0 <= i < s.len() ==> !is_whitespace(s[i]),
    ensures
        strip_whitespace(s) == s,
    decreases s.len(),
{
    if s.len() > 0 {
        lemma_strip_none(s.drop_last());
        assert(s.drop_last().push(s.last()) =~= s);
    }
}

/// A number literal opens with a sign or a digit, and digits and points follow.
proof fn lemma_number_chars(t: Seq<char>)
    requires
        is_number_text(t),
    ensures
        t.len() > 0,
        t[0] == '+' || t[0] == '-' || is_digit(t[0]),
        forall|k: int| 1 <= k < t.len() ==> is_number_char(#[trigger] t[k]),
{
    if t.len() > 0 && (t[0] == '+' || t[0] == '-') {
        let u = t.skip(1);
        assert(unsigned_decimal(u));
        assert forall|k: int| 1 <= k < t.len() implies is_number_char(#[trigger] t[k]) by {
            assert(t[k] == u[k - 1]);
        }
    }
}

/// `number_end` stops at the first position past a run of digits and points.
proof fn lemma_number_end(s: Seq<char>, i: int, j: int)
    requires
        0 <= i <= j <= s.len(),
        forall|k: int| i <= k < j ==> is_number_char(#[trigger] s[k]),
        j == s.len() || !is_number_char(s[j]),
    ensures
        number_end(s, i) == j,
    decreases j - i,
{
    if i < j {
        lemma_number_end(s, i + 1, j);
    }
}

/// A number literal at `start`, not followed by a digit or a point, is read whole.
proof fn lemma_number_operand(s: Seq<char>, start: int, t: Seq<char>)
    requires
        is_number_text(t),
        0 <= start,
        start + t.len() <= s.len(),
        s.subrange(start, start + t.len()) == t,
        start + t.len() == s.len() || !is_number_char(s[start + t.len()]),
    ensures
        parse_operand(s, start) == reached(Ast::Number(t), start + t.len()),
{
    lemma_number_chars(t);
    let end = start + t.len();
    assert(s[start] == t[0]);
    assert forall|k: int| start + 1 <= k < end implies is_number_char(#[trigger] s[k]) by {
        assert(s[k] == t[k - start]);
    }
    lemma_number_end(s, start + 1, end);
    assert(parse_number(s, start) == reached(Ast::Number(t), end));
}

/// The spaced form `a op b` holds no keyword, so substitution keeps it.
proof fn lemma_spaced_unchanged(a: Seq<char>, b: Seq<char>, op: char, width: int, height: int)
    requires
        is_number_text(a),
        is_number_text(b),
        is_operator(op),
    ensures
        substituted(a + seq![' ', op, ' '] + b, width, height) == a + seq![' ', op, ' '] + b,
{
    let x = a + seq![' ', op, ' '] + b;
    lemma_number_chars(a);
    lemma_number_chars(b);
    assert forall|i: int| 0 <= i < x.len() implies x[i] != 'w' && x[i] != 'h' && x[i] != 'm' by {
        if i < a.len() {
            assert(x[i] == a[i]);
        } else if i >= a.len() + 3 {
            assert(x[i] == b[i - a.len() - 3]);
        }
    }
    let hi = if width >= height { width } else { height };
    let lo = if width <= height { width } else { height };
    lemma_replace_absent(x, seq!['w', 'i', 'd', 't', 'h'], decimal(width));
    lemma_replace_absent(x, seq!['h', 'e', 'i', 'g', 'h', 't'], decimal(height));
    lemma_replace_absent(x, seq!['m', 'a', 'x'], decimal(hi));
    lemma_replace_absent(x, seq!['m', 'i', 'n'], decimal(lo));
}

/// Stripping the spaced form `a op b` leaves `a`, `op` and `b` side by side.
proof fn lemma_spaced_stripped(a: Seq<char>, b: Seq<char>, op: char)
    requires
        is_number_text(a),
        is_number_text(b),
        is_operator(op),
    ensures
        strip_whitespace(a + seq![' ', op, ' '] + b) == a + seq![op] + b,
{
    lemma_number_chars(a);
    lemma_number_chars(b);
    lemma_strip_concat(a + seq![' ', op, ' '], b);
    lemma_strip_concat(a, seq![' ', op, ' ']);
    assert(seq![' ', op, ' '] =~= seq![' '] + seq![op] + seq![' ']);
    lemma_strip_concat(seq![' '] + seq![op], seq![' ']);
    lemma_strip_concat(seq![' '], seq![op]);
    assert(seq![' '].drop_last() =~= Seq::<char>::empty());
    assert(seq![op].drop_last() =~= Seq::<char>::empty());
    assert(seq![' '].last() == ' ');
    assert(strip_whitespace(Seq::<char>::empty()) =~= Seq::<char>::empty());
    assert(strip_whitespace(seq![' ']) =~= Seq::<char>::empty());
    assert(strip_whitespace(seq![op]) =~= seq![op]);
    assert forall|i: int| 0 <= i < a.len() implies !is_whitespace(a[i]) by {
        if i > 0 {
            assert(is_number_char(a[i]));
        }
    }
    assert forall|i: int| 0 <= i < b.len() implies !is_whitespace(b[i]) by {
        if i > 0 {
            assert(is_number_char(b[i]));
        }
    }
    lemma_strip_none(a);
    lemma_strip_none(b);
    assert(strip_whitespace(a + seq![' ', op, ' '] + b) =~= a + seq![op] + b);
}

/// `a op b` without spaces parses whole to the operation on the two numbers.
proof fn lemma_joined_parse(a: Seq<char>, b: Seq<char>, op: char)
    requires
        is_number_text(a),
        is_number_text(b),
        is_operator(op),
    ensures
        parse_expression(a + seq![op] + b, 0)
            == reached(binary(op, Ast::Number(a), Ast::Number(b)), (a.len() + 1 + b.len()) as int),
{
    let t = a + seq![op] + b;
    let n = a.len() as int;
    assert(t.subrange(0, n) =~= a);
    assert(t[n] == op);
    lemma_number_operand(t, 0, a);
    assert(t.subrange(n + 1, t.len() as int) =~= b);
    lemma_number_operand(t, n + 1, b);
    let na = Ast::Number(a);
    let nb = Ast::Number(b);
    let len = t.len() as int;
    let e = binary(op, na, nb);
    assert(parse_term_rest(t, nb, len) == reached(nb, len));
    if op == '+' || op == '-' {
        assert(parse_term_rest(t, na, n) == reached(na, n));
        assert(parse_term(t, 0) == reached(na, n));
        assert(parse_term(t, n + 1) == reached(nb, len));
        assert(parse_expression_rest(t, e, len) == reached(e, len));
        assert(parse_expression_rest(t, na, n) == reached(e, len));
    } else {
        assert(parse_term_rest(t, e, len) == reached(e, len));
        assert(parse_term_rest(t, na, n) == reached(e, len));
        assert(parse_term(t, 0) == reached(e, len));
        assert(parse_expression_rest(t, e, len) == reached(e, len));
    }
}

/// For any width and height, two number literals joined by `+`, `-`, `*` or `/`
/// with a space on each side parse to that operation on the two numbers.
pub proof fn lemma_binary_literals(a: Seq<char>, b: Seq<char>, op: char, width: int, height: int)
    requires
        is_number_text(a),
        is_number_text(b),
        is_operator(op),
    ensures
        parse_text(substituted(a + seq![' ', op, ' '] + b, width, height))
            == Ok::<Ast, Failure>(binary(op, Ast::Number(a), Ast::Number(b))),
{
    lemma_spaced_unchanged(a, b, op, width, height);
    lemma_spaced_stripped(a, b, op);
    lemma_joined_parse(a, b, op);
}

/// Keyword substitution is a function of its arguments: two results for the same
/// text, width and height are the same text.
pub proof fn lemma_substitution_repeatable(
    first: Seq<char>,
    second: Seq<char>,
    math: Seq<char>,
    width: int,
    height: int,
)
    requires
        first == substituted(math, width, height),
        second == substituted(math, width, height),
    ensures
        first == second,
{
}

/// Parsing is a function of its arguments: two results of `parse_math` for the
/// same text, width and height are the same tree or the same error.
pub proof fn lemma_parse_repeatable(
    first: Result<Expr, ParseError>,
    second: Result<Expr, ParseError>,
    math: Seq<char>,
    width: int,
    height: int,
)
    requires
        result_model(first) == parse_text(substituted(math, width, height)),
        result_model(second) == parse_text(substituted(math, width, height)),
    ensures
        result_model(first) == result_model(second),
{
}

} // verus!
