use shadower::{substitute_keywords, ShadowColor};

#[test]
fn each_keyword_is_replaced() {
    assert_eq!(substitute_keywords("width*height+max-min", 100, 200), "100*200+200-100");
    assert_eq!(substitute_keywords("max min", 640, 480), "640 480");
}

#[test]
fn text_without_keywords_is_kept() {
    assert_eq!(substitute_keywords("2 + (3 * 4)", 7, 9), "2 + (3 * 4)");
    assert_eq!(substitute_keywords("", 7, 9), "");
}

#[test]
fn zero_and_negative_values() {
    assert_eq!(substitute_keywords("width,height", 0, -15), "0,-15");
    assert_eq!(substitute_keywords("min", -2147483648, 5), "-2147483648");
}

#[test]
fn replacement_is_textual() {
    assert_eq!(substitute_keywords("widthwidth", 1, 2), "11");
    assert_eq!(substitute_keywords("maxi", 3, 4), "4i");
}

#[test]
fn substitution_is_repeatable() {
    let a = substitute_keywords("clamp(width, 300 / min, height) - max", 100, 200);
    let b = substitute_keywords("clamp(width, 300 / min, height) - max", 100, 200);
    assert_eq!(a, b);
    assert_eq!(a, "clamp(100, 300 / 100, 200) - 200");
}

#[test]
fn color_code_channels() {
    let c = ShadowColor::from_code("0x11223344".as_bytes());
    assert_eq!((c.r, c.g, c.b, c.a), (0x11, 0x22, 0x33, 0x44));
    let c = ShadowColor::from_code("0x00000064".as_bytes());
    assert_eq!((c.r, c.g, c.b, c.a), (0, 0, 0, 100));
}

#[test]
fn color_code_odd_fields() {
    let c = ShadowColor::from_code("0x+FzzAabB".as_bytes());
    assert_eq!((c.r, c.g, c.b, c.a), (15, 0, 0xAA, 0xBB));
}
