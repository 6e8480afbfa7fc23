use drawafunc::status::{
    empty_drawing_status, exponential_status, polynomial_status, primitive_status,
};
use drawafunc::text::{decimal_text, is_blank, push_decimal};

#[test]
fn decimal_text_matches_format() {
    for n in [0usize, 7, 10, 42, 100, 909, 123456789, usize::MAX] {
        assert_eq!(decimal_text(n), format!("{n}"));
    }
    let mut text = String::from("n=");
    push_decimal(&mut text, 305);
    assert_eq!(text, "n=305");
}

#[test]
fn primitive_status_lines() {
    assert_eq!(empty_drawing_status(), "Nothing to generate yet.");
    assert_eq!(
        primitive_status(0, 0, 0, 3),
        "Generation failed: strokes are too short after preprocessing."
    );
    assert_eq!(
        primitive_status(5, 3, 2, 0),
        "Generated 5 primitive(s): 3 line(s), 2 Bezier curve(s)."
    );
    assert_eq!(
        primitive_status(12, 12, 0, 2),
        "Generated 12 primitive(s): 12 line(s), 0 Bezier curve(s). Skipped 2 tiny stroke(s)."
    );
}

#[test]
fn function_fit_status_lines() {
    assert_eq!(
        polynomial_status(0, 0, 0, 1),
        "Experimental polynomial fit failed: strokes are not suitable for y=f(x)."
    );
    assert_eq!(
        polynomial_status(2, 3, 1, 1),
        "Generated 2 experimental polynomial function(s). Max degree used: 3. X-turns and high-error spans are split into multiple y=f(x) pieces. Recursive splits: 1. Skipped 1 stroke(s)."
    );
    assert_eq!(
        exponential_status(0, 0, 0, 0),
        "Experimental exponential fit failed: strokes are not suitable for y=c+a*e^(b*x)."
    );
    assert_eq!(
        exponential_status(4, 1, 2, 0),
        "Generated 4 experimental exponential-family function(s) of form y=c+a*e^(b*x), with polynomial fallback for unstable spans. Fallbacks: 1. Recursive splits: 2."
    );
}

#[test]
fn blank_agrees_with_trim_on_every_char() {
    for code in 0u32..=0x10FFFF {
        if let Some(c) = char::from_u32(code) {
            let text = c.to_string();
            assert_eq!(is_blank(&text), text.trim().is_empty(), "U+{code:04X}");
        }
    }
    assert!(is_blank(""));
    assert!(is_blank(" \t\n\u{3000}"));
    assert!(!is_blank("  y=1 "));
}
