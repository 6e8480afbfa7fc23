use drawafunc::desmos::{
    export_beziers, export_exponential, export_lines, export_mixed, export_polynomial,
    number_list, trim_fixed_decimal, CoefficientText, DomainText, PointText, PrimitiveText,
};

// The numbers reach the exporter written with four decimals and trimmed.
fn num(value: f32) -> String {
    let rounded = if value.abs() < 0.000_001 { 0.0 } else { value };
    trim_fixed_decimal(&format!("{rounded:.4}"))
}

fn point(x: f32, y: f32) -> PointText {
    PointText { x: num(x), y: num(y) }
}

fn line(from: (f32, f32), to: (f32, f32)) -> PrimitiveText {
    PrimitiveText::Line {
        from: point(from.0, from.1),
        to: point(to.0, to.1),
    }
}

fn coefficients(values: &[f32]) -> Vec<CoefficientText> {
    values
        .iter()
        .map(|c| CoefficientText {
            significant: !(c.abs() < 0.000_001),
            negative: *c < 0.0,
            magnitude: num(c.abs()),
        })
        .collect()
}

fn domain(min_x: f32, max_x: f32) -> Option<DomainText> {
    Some(DomainText {
        min: num(min_x),
        max: num(max_x),
    })
}

#[test]
fn fmt_num_trims_noise_and_zeroes() {
    assert_eq!(num(0.0), "0");
    assert_eq!(num(1.5000), "1.5");
    assert_eq!(num(-2.1250), "-2.125");
    assert_eq!(num(0.000_000_1), "0");
}

#[test]
fn trim_keeps_text_without_point() {
    assert_eq!(trim_fixed_decimal("120"), "120");
    assert_eq!(trim_fixed_decimal("3.0000"), "3");
    assert_eq!(trim_fixed_decimal("10.0500"), "10.05");
    assert_eq!(trim_fixed_decimal("inf"), "inf");
    assert_eq!(trim_fixed_decimal(""), "");
}

#[test]
fn number_list_brackets_and_commas() {
    assert_eq!(number_list(&vec![]), "[]");
    assert_eq!(number_list(&vec!["1".to_string()]), "[1]");
    assert_eq!(
        number_list(&vec!["0".to_string(), "-2".to_string(), "3.5".to_string()]),
        "[0,-2,3.5]"
    );
}

#[test]
fn line_export_uses_lists_and_one_curve() {
    let export = export_lines(&[
        line((0.0, 1.0), (2.0, 3.0)),
        line((-2.0, 1.0), (-2.0, -3.0)),
    ]);

    assert_eq!(
        export,
        [
            "U_1=[0,-2]",
            "U_2=[2,-2]",
            "V_1=[1,1]",
            "V_2=[3,-3]",
            "(U_1+(U_2-U_1)*t,V_1+(V_2-V_1)*t)",
        ]
        .join("\n")
    );
}

#[test]
fn bezier_export_uses_control_point_lists() {
    let export = export_beziers(&[PrimitiveText::CubicBezier {
        p0: point(0.0, 0.0),
        p1: point(1.0, 0.0),
        p2: point(1.0, 1.0),
        p3: point(2.0, 1.0),
    }]);

    assert!(export.contains("A_0=[0]"));
    assert!(export.contains("B_3=[1]"));
    assert!(export.contains("(1-t)^3*A_0"));
}

#[test]
fn bezier_export_exact_text() {
    let export = export_beziers(&[PrimitiveText::CubicBezier {
        p0: point(0.0, 0.0),
        p1: point(1.0, 0.0),
        p2: point(1.0, 1.0),
        p3: point(2.0, 1.0),
    }]);
    assert_eq!(
        export,
        [
            "A_0=[0]",
            "A_1=[1]",
            "A_2=[1]",
            "A_3=[2]",
            "B_0=[0]",
            "B_1=[0]",
            "B_2=[1]",
            "B_3=[1]",
            "((1-t)^3*A_0+3*(1-t)^2*t*A_1+3*(1-t)*t^2*A_2+t^3*A_3,(1-t)^3*B_0+3*(1-t)^2*t*B_1+3*(1-t)*t^2*B_2+t^3*B_3)",
        ]
        .join("\n")
    );
}

#[test]
fn exports_ignore_the_other_kind() {
    let only_lines = [line((0.0, 0.0), (1.0, 1.0))];
    assert_eq!(export_beziers(&only_lines), "");
    assert_eq!(export_mixed(&only_lines), export_lines(&only_lines));
    assert_eq!(export_lines(&[]), "");
    assert_eq!(export_mixed(&[]), "");
}

#[test]
fn mixed_export_puts_lines_first() {
    let prims = [
        PrimitiveText::CubicBezier {
            p0: point(0.0, 0.0),
            p1: point(1.0, 0.0),
            p2: point(1.0, 1.0),
            p3: point(2.0, 1.0),
        },
        line((5.0, 6.0), (7.0, 8.0)),
    ];
    let mixed = export_mixed(&prims);
    assert_eq!(
        mixed,
        format!("{}\n{}", export_lines(&prims), export_beziers(&prims))
    );
    assert!(mixed.starts_with("U_1=[5]\nU_2=[7]\nV_1=[6]\nV_2=[8]\n"));
}

#[test]
fn polynomial_export_is_real_function() {
    assert_eq!(
        export_polynomial(&coefficients(&[1.0, 2.0, -3.0]), &None),
        "y=-3x^2+2x+1"
    );
}

#[test]
fn polynomial_export_can_include_domain() {
    assert_eq!(
        export_polynomial(&coefficients(&[1.0, 2.0]), &domain(-1.5, 3.0)),
        "y=2x+1\\left\\{-1.5\\le x\\le 3\\right\\}"
    );
}

#[test]
fn polynomial_export_skips_tiny_and_handles_all_tiny() {
    assert_eq!(export_polynomial(&coefficients(&[]), &None), "");
    assert_eq!(export_polynomial(&coefficients(&[0.0, 0.0]), &None), "y=0");
    assert_eq!(
        export_polynomial(&coefficients(&[-1.0, 0.0, 0.0, 0.0, 0.0, 0.0, 0.0, 0.0, 0.0, 0.0, 0.0, 2.5]), &None),
        "y=2.5x^11-1"
    );
    assert_eq!(export_polynomial(&coefficients(&[0.0, -4.0]), &None), "y=-4x");
}

#[test]
fn exponential_export_can_include_domain() {
    assert_eq!(
        export_exponential(true, &num(1.0), false, &num(2.0), &num(-0.5), &domain(0.0, 3.0)),
        "y=1+2e^(-0.5x)\\left\\{0\\le x\\le 3\\right\\}"
    );
}

#[test]
fn exponential_export_writes_negative_amplitude() {
    assert_eq!(
        export_exponential(true, &num(0.0), true, &num(1.25), &num(2.0), &None),
        "y=0-1.25e^(2x)"
    );
}

#[test]
fn exponential_export_rejects_non_finite_coefficients() {
    let (amplitude, rate, offset) = (f32::INFINITY, 1.0_f32, 0.0_f32);
    let finite = amplitude.is_finite() && rate.is_finite() && offset.is_finite();
    assert!(export_exponential(finite, &num(offset), false, "inf", &num(rate), &None).is_empty());
}
