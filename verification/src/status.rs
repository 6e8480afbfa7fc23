use vstd::prelude::*;
use vstd::string::*;
use crate::text::{decimal, push_decimal};

verus! {

/// The note on skipped strokes that ends a status line: empty when nothing
/// was skipped.
pub open spec fn skipped_note(skipped: nat, noun: Seq<char>) -> Seq<char> {
    if skipped > 0 {
        " Skipped "@ + decimal(skipped) + noun
    } else {
        Seq::empty()
    }
}

/// The status line after generating lines and Bézier curves.
pub open spec fn primitive_status_text(primitives: nat, lines: nat, beziers: nat, skipped: nat) -> Seq<
    char,
> {
    if primitives == 0 {
        "Generation failed: strokes are too short after preprocessing."@
    } else {
        "Generated "@ + decimal(primitives) + " primitive(s): "@ + decimal(lines) + " line(s), "@
            + decimal(beziers) + " Bezier curve(s)."@ + skipped_note(skipped, " tiny stroke(s)."@)
    }
}

/// The status line after fitting polynomial functions.
pub open spec fn polynomial_status_text(fitted: nat, max_degree: nat, splits: nat, skipped: nat) -> Seq<
    char,
> {
    if fitted == 0 {
        "Experimental polynomial fit failed: strokes are not suitable for y=f(x)."@
    } else {
        "Generated "@ + decimal(fitted) + " experimental polynomial function(s). Max degree used: "@
            + decimal(max_degree)
            + ". X-turns and high-error spans are split into multiple y=f(x) pieces. Recursive splits: "@
            + decimal(splits) + "."@ + skipped_note(skipped, " stroke(s)."@)
    }
}

/// The status line after fitting exponential functions.
pub open spec fn exponential_status_text(fitted: nat, fallbacks: nat, splits: nat, skipped: nat) -> Seq<
    char,
> {
    if fitted == 0 {
        "Experimental exponential fit failed: strokes are not suitable for y=c+a*e^(b*x)."@
    } else {
        "Generated "@ + decimal(fitted)
            + " experimental exponential-family function(s) of form y=c+a*e^(b*x), with polynomial fallback for unstable spans. Fallbacks: "@
            + decimal(fallbacks) + ". Recursive splits: "@ + decimal(splits) + "."@ + skipped_note(
            skipped,
            " stroke(s)."@,
        )
    }
}

/// The line after generating primitives: with none, the failure message
/// whatever the other counts; otherwise the primitive, line and Bézier counts
/// in that order, and only when strokes were skipped, a note with their number.
pub proof fn lemma_primitive_status_reports_counts(p: nat, l: nat, b: nat, s: nat)
    ensures
        p == 0 ==> primitive_status_text(p, l, b, s)
            == "Generation failed: strokes are too short after preprocessing."@,
        p > 0 ==> primitive_status_text(p, l, b, 0) == "Generated "@ + decimal(p) + " primitive(s): "@
            + decimal(l) + " line(s), "@ + decimal(b) + " Bezier curve(s)."@,
        p > 0 && s > 0 ==> primitive_status_text(p, l, b, s) == primitive_status_text(p, l, b, 0)
            + " Skipped "@ + decimal(s) + " tiny stroke(s)."@,
{
    if p > 0 {
        assert(primitive_status_text(p, l, b, 0) =~= "Generated "@ + decimal(p) + " primitive(s): "@
            + decimal(l) + " line(s), "@ + decimal(b) + " Bezier curve(s)."@ + Seq::<char>::empty());
    }
}

/// The lines after function fits: with none fitted, the failure message
/// whatever the other counts; otherwise the counts in their places, and only
/// when strokes were skipped, a note with their number.
pub proof fn lemma_fit_status_reports_counts(f: nat, x: nat, sp: nat, s: nat)
    ensures
        f == 0 ==> polynomial_status_text(f, x, sp, s)
            == "Experimental polynomial fit failed: strokes are not suitable for y=f(x)."@,
        f == 0 ==> exponential_status_text(f, x, sp, s)
            == "Experimental exponential fit failed: strokes are not suitable for y=c+a*e^(b*x)."@,
        f > 0 ==> polynomial_status_text(f, x, sp, 0) == "Generated "@ + decimal(f)
            + " experimental polynomial function(s). Max degree used: "@ + decimal(x)
            + ". X-turns and high-error spans are split into multiple y=f(x) pieces. Recursive splits: "@
            + decimal(sp) + "."@,
        f > 0 ==> exponential_status_text(f, x, sp, 0) == "Generated "@ + decimal(f)
            + " experimental exponential-family function(s) of form y=c+a*e^(b*x), with polynomial fallback for unstable spans. Fallbacks: "@
            + decimal(x) + ". Recursive splits: "@ + decimal(sp) + "."@,
        f > 0 && s > 0 ==> polynomial_status_text(f, x, sp, s) == polynomial_status_text(f, x, sp, 0)
            + " Skipped "@ + decimal(s) + " stroke(s)."@,
        f > 0 && s > 0 ==> exponential_status_text(f, x, sp, s) == exponential_status_text(f, x, sp, 0)
            + " Skipped "@ + decimal(s) + " stroke(s)."@,
{
    if f > 0 {
        assert(polynomial_status_text(f, x, sp, 0) =~= "Generated "@ + decimal(f)
            + " experimental polynomial function(s). Max degree used: "@ + decimal(x)
            + ". X-turns and high-error spans are split into multiple y=f(x) pieces. Recursive splits: "@
            + decimal(sp) + "."@ + Seq::<char>::empty());
        assert(exponential_status_text(f, x, sp, 0) =~= "Generated "@ + decimal(f)
            + " experimental exponential-family function(s) of form y=c+a*e^(b*x), with polynomial fallback for unstable spans. Fallbacks: "@
            + decimal(x) + ". Recursive splits: "@ + decimal(sp) + "."@ + Seq::<char>::empty());
    }
}

fn push_skipped_note(out: &mut String, skipped: usize, noun: &str)
    ensures
        final(out)@ == old(out)@ + skipped_note(skipped as nat, noun@),
{
    if skipped > 0 {
        let ghost start = out@;
        out.append(" Skipped ");
        push_decimal(out, skipped);
        out.append(noun);
        assert(out@ =~= start + skipped_note(skipped as nat, noun@));
    } else {
        assert(out@ =~= old(out)@ + skipped_note(skipped as nat, noun@));
    }
}

/// What the generator reports when the drawing has no stroke.
pub fn empty_drawing_status() -> (status: String)
    ensures
        status@ == "Nothing to generate yet."@,
{
    String::from_str("Nothing to generate yet.")
}

/// What the generator reports after producing lines and Bézier curves:
/// how many primitives of each kind, and how many strokes were too small to
/// use; or that nothing could be produced.
pub fn primitive_status(primitives: usize, lines: usize, beziers: usize, skipped: usize) -> (status:
    String)
    ensures
        status@ == primitive_status_text(primitives as nat, lines as nat, beziers as nat, skipped as nat),
{
    if primitives == 0 {
        return String::from_str("Generation failed: strokes are too short after preprocessing.");
    }
    let mut status = String::from_str("Generated ");
    push_decimal(&mut status, primitives);
    status.append(" primitive(s): ");
    push_decimal(&mut status, lines);
    status.append(" line(s), ");
    push_decimal(&mut status, beziers);
    status.append(" Bezier curve(s).");
    push_skipped_note(&mut status, skipped, " tiny stroke(s).");
    assert(status@ =~= primitive_status_text(
        primitives as nat,
        lines as nat,
        beziers as nat,
        skipped as nat,
    ));
    status
}

/// What the generator reports after fitting polynomial functions.
pub fn polynomial_status(fitted: usize, max_degree: usize, splits: usize, skipped: usize) -> (status:
    String)
    ensures
        status@ == polynomial_status_text(fitted as nat, max_degree as nat, splits as nat, skipped as nat),
{
    if fitted == 0 {
        return String::from_str(
            "Experimental polynomial fit failed: strokes are not suitable for y=f(x).",
        );
    }
    let mut status = String::from_str("Generated ");
    push_decimal(&mut status, fitted);
    status.append(" experimental polynomial function(s). Max degree used: ");
    push_decimal(&mut status, max_degree);
    status.append(
        ". X-turns and high-error spans are split into multiple y=f(x) pieces. Recursive splits: ",
    );
    push_decimal(&mut status, splits);
    status.append(".");
    push_skipped_note(&mut status, skipped, " stroke(s).");
    assert(status@ =~= polynomial_status_text(
        fitted as nat,
        max_degree as nat,
        splits as nat,
        skipped as nat,
    ));
    status
}

/// What the generator reports after fitting exponential functions, with the
/// number of spans that fell back to a polynomial.
pub fn exponential_status(fitted: usize, fallbacks: usize, splits: usize, skipped: usize) -> (status:
    String)
    ensures
        status@ == exponential_status_text(fitted as nat, fallbacks as nat, splits as nat, skipped as nat),
{
    if fitted == 0 {
        return String::from_str(
            "Experimental exponential fit failed: strokes are not suitable for y=c+a*e^(b*x).",
        );
    }
    let mut status = String::from_str("Generated ");
    push_decimal(&mut status, fitted);
    status.append(
        " experimental exponential-family function(s) of form y=c+a*e^(b*x), with polynomial fallback for unstable spans. Fallbacks: ",
    );
    push_decimal(&mut status, fallbacks);
    status.append(". Recursive splits: ");
    push_decimal(&mut status, splits);
    status.append(".");
    push_skipped_note(&mut status, skipped, " stroke(s).");
    assert(status@ =~= exponential_status_text(
        fitted as nat,
        fallbacks as nat,
        splits as nat,
        skipped as nat,
    ));
    status
}

} // verus!
