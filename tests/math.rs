use shadower::{parse_math, Expr};

const WIDTH: i32 = 100;
const HEIGHT: i32 = 200;

const WIDTHF: f32 = 100.0;
const HEIGHTF: f32 = 200.0;

fn max() -> f32 {
    WIDTHF.max(HEIGHTF)
}

fn min() -> f32 {
    WIDTHF.min(HEIGHTF)
}

fn value(e: &Expr) -> f32 {
    match e {
        Expr::Number(text) => text.parse::<f32>().unwrap(),
        Expr::Add(a, b) => value(a) + value(b),
        Expr::Sub(a, b) => value(a) - value(b),
        Expr::Mul(a, b) => value(a) * value(b),
        Expr::Div(a, b) => value(a) / value(b),
        Expr::Clamp(lo, v, hi) => {
            let lo = lo.as_ref().map_or(f32::MIN, |e| value(e));
            let hi = hi.as_ref().map_or(f32::MAX, |e| value(e));
            value(v).max(lo).min(hi)
        }
    }
}

fn math_value(math: String, width: i32, height: i32) -> f32 {
    match parse_math(math.clone(), width, height) {
        Ok(e) => value(&e),
        Err(err) => panic!("Invalid math expression: {math}\n{err:#?}"),
    }
}

#[test]
fn addition() {
    assert_eq!(math_value("9 + 10".to_owned(), WIDTH, HEIGHT), 19.0)
}

#[test]
fn subtraction() {
    assert_eq!(math_value("10 - 9".to_owned(), WIDTH, HEIGHT), 1.0)
}

#[test]
fn multiplication() {
    assert_eq!(math_value("9 * 10".to_owned(), WIDTH, HEIGHT), 90.0)
}

#[test]
fn division() {
    assert_eq!(math_value("21 / 3".to_owned(), WIDTH, HEIGHT), 7.0)
}

#[test]
fn sizes() {
    assert_eq!(
        math_value("width + 10".to_owned(), WIDTH, HEIGHT),
        WIDTHF + 10.0
    );
    assert_eq!(
        math_value("height + 10".to_owned(), WIDTH, HEIGHT),
        HEIGHTF + 10.0
    );
}

#[test]
fn minmax() {
    assert_eq!(
        math_value("min + 10".to_owned(), WIDTH, HEIGHT),
        min() + 10.0
    );
    assert_eq!(
        math_value("max + 10".to_owned(), WIDTH, HEIGHT),
        max() + 10.0
    );
}

#[test]
fn brackets() {
    assert_eq!(math_value("2 * (20 + 10)".to_owned(), WIDTH, HEIGHT), 60.0);
}

#[test]
fn operation_order() {
    assert_eq!(math_value("2 + 2 * 2".to_owned(), WIDTH, HEIGHT), 6.0);
}

#[test]
fn clamp() {
    assert_eq!(
        math_value("clamp(1, 2 + 2 * 2, 4)".to_owned(), WIDTH, HEIGHT),
        4.0
    );
    assert_eq!(
        math_value("clamp(1, 2 + 2 * 2, _)".to_owned(), WIDTH, HEIGHT),
        6.0
    );
    assert_eq!(
        math_value("clamp(_, -8, -10)".to_owned(), WIDTH, HEIGHT),
        -10.0
    );
}

fn clamp_value(min: f32, val: f32, max: f32) -> f32 {
    val.max(min).min(max)
}

#[test]
fn everything() {
    assert_eq!(
        math_value(
            "(5 + 1) * 2 + 2 * 2 / clamp(width, 300 / min, height) - max".to_owned(),
            WIDTH,
            HEIGHT
        ),
        (5.0 + 1.0) * 2.0 + 2.0 * 2.0 / clamp_value(WIDTHF, 300.0 / min(), HEIGHTF) - max()
    )
}

#[test]
fn twenty_one() {
    assert_ne!(math_value("9 + 10".to_owned(), WIDTH, HEIGHT), 21.0)
}
