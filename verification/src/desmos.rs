use vstd::prelude::*;
use vstd::string::*;
use crate::text::{decimal, push_decimal};

verus! {

/// A point whose coordinates are already written as Desmos numbers.
#[derive(Clone, Debug)]
pub struct PointText {
    pub x: String,
    pub y: String,
}

/// A generated primitive whose control points are already written as Desmos
/// numbers: a line segment, or a cubic Bézier curve with four control points.
#[derive(Clone, Debug)]
pub enum PrimitiveText {
    Line { from: PointText, to: PointText },
    CubicBezier { p0: PointText, p1: PointText, p2: PointText, p3: PointText },
}

/// One coordinate axis.
#[derive(Clone, Copy, Debug, PartialEq, Eq, Structural)]
pub enum Axis {
    X,
    Y,
}

/// A polynomial coefficient as the exporter sees it: whether it is large
/// enough to print, its sign, and its magnitude written as a Desmos number.
#[derive(Clone, Debug)]
pub struct CoefficientText {
    pub significant: bool,
    pub negative: bool,
    pub magnitude: String,
}

/// The closed interval `min..=max` of x written as Desmos numbers.
#[derive(Clone, Debug)]
pub struct DomainText {
    pub min: String,
    pub max: String,
}

// ---------------------------------------------------------------------------
// Numbers

/// `s` without its trailing `'0'`s.
pub open spec fn strip_trailing_zeros(s: Seq<char>) -> Seq<char>
    decreases s.len(),
{
    if s.len() > 0 && s.last() == '0' {
        strip_trailing_zeros(s.drop_last())
    } else {
        s
    }
}

/// A fixed-point number with its noise digits removed: when it has a decimal
/// point, its trailing zeros go, and so does the point if nothing follows it.
pub open spec fn trimmed_decimal(s: Seq<char>) -> Seq<char> {
    if s.contains('.') {
        let t = strip_trailing_zeros(s);
        if t.len() > 0 && t.last() == '.' {
            t.drop_last()
        } else {
            t
        }
    } else {
        s
    }
}

/// Trims a number written with four decimals (`"1.5000"` becomes `"1.5"`,
/// `"3.0000"` becomes `"3"`); text without a decimal point is kept.
pub fn trim_fixed_decimal(text: &str) -> (trimmed: String)
    ensures
        trimmed@ == trimmed_decimal(text@),
{
    let n = text.unicode_len();
    let mut has_dot = false;
    let mut i: usize = 0;
    while i < n
        invariant
            n == text@.len(),
            i <= n,
            has_dot == exists|j: int| 0 <= j < i && text@[j] == '.',
        decreases n - i,
    {
        if text.get_char(i) == '.' {
            has_dot = true;
        }
        i = i + 1;
    }
    assert(has_dot == text@.contains('.'));
    let mut k: usize = n;
    if has_dot {
        assert(text@.subrange(0, n as int) =~= text@);
        while k > 0 && text.get_char(k - 1) == '0'
            invariant
                n == text@.len(),
                k <= n,
                strip_trailing_zeros(text@.subrange(0, k as int)) == strip_trailing_zeros(text@),
            decreases k,
        {
            assert(text@.subrange(0, k as int).drop_last() =~= text@.subrange(0, k - 1));
            k = k - 1;
        }
        assert(text@.subrange(0, n as int) =~= text@);
        assert(strip_trailing_zeros(text@.subrange(0, k as int)) == text@.subrange(0, k as int));
    } else {
        assert(text@.subrange(0, n as int) =~= text@);
    }
    if k > 0 && text.get_char(k - 1) == '.' {
        assert(text@.subrange(0, k as int).drop_last() =~= text@.subrange(0, k - 1));
        k = k - 1;
    }
    String::from_str(text.substring_char(0, k))
}

proof fn lemma_strip_prefix(s: Seq<char>)
    ensures
        strip_trailing_zeros(s).len() <= s.len(),
        strip_trailing_zeros(s) =~= s.subrange(0, strip_trailing_zeros(s).len() as int),
        strip_trailing_zeros(s).len() > 0 ==> strip_trailing_zeros(s).last() != '0',
        forall|i: int|
            strip_trailing_zeros(s).len() <= i < s.len() ==> #[trigger] s[i] == '0',
    decreases s.len(),
{
    if s.len() > 0 && s.last() == '0' {
        lemma_strip_prefix(s.drop_last());
        assert forall|i: int| strip_trailing_zeros(s).len() <= i < s.len() implies #[trigger] s[i]
            == '0' by {
            if i < s.len() - 1 {
                assert(s.drop_last()[i] == s[i]);
            }
        }
    }
}

/// Trimming only ever removes the end of the fraction: what is left is a
/// prefix of the text, reaching at least to every decimal point; what goes is
/// zeros and at most one point; text without a point is kept whole. So the
/// trimmed number has the same value.
pub proof fn lemma_trim_drops_only_fraction_zeros(s: Seq<char>)
    ensures
        trimmed_decimal(s).len() <= s.len(),
        trimmed_decimal(s) == s.subrange(0, trimmed_decimal(s).len() as int),
        forall|i: int|
            trimmed_decimal(s).len() <= i < s.len() ==> #[trigger] s[i] == '0' || s[i] == '.',
        forall|i: int, j: int|
            trimmed_decimal(s).len() <= i < s.len() && trimmed_decimal(s).len() <= j < s.len()
                && #[trigger] s[i] == '.' && #[trigger] s[j] == '.' ==> i == j,
        forall|k: int| 0 <= k < s.len() && #[trigger] s[k] == '.' ==> k <= trimmed_decimal(s).len(),
        !s.contains('.') ==> trimmed_decimal(s) == s,
{
    if s.contains('.') {
        lemma_strip_prefix(s);
        let u = strip_trailing_zeros(s);
        assert forall|k: int| 0 <= k < s.len() && #[trigger] s[k] == '.' implies k < u.len() by {
            if k >= u.len() {
                assert(s[k] == '0');
            }
        }
        if u.len() > 0 && u.last() == '.' {
            assert(trimmed_decimal(s) =~= s.subrange(0, u.len() - 1));
        }
    }
}

/// The text has at most one decimal point.
pub open spec fn at_most_one_point(s: Seq<char>) -> bool {
    forall|i: int, j: int| 0 <= i < s.len() && 0 <= j < s.len() && s[i] == '.' && s[j] == '.' ==> i == j
}

/// Trimming keeps a prefix of the number; what is left with a decimal point
/// ends in neither a zero nor the point, and trimming again changes nothing.
pub proof fn lemma_trim_removes_noise(s: Seq<char>)
    requires
        at_most_one_point(s),
    ensures
        trimmed_decimal(s) =~= s.subrange(0, trimmed_decimal(s).len() as int),
        trimmed_decimal(s).contains('.') ==> trimmed_decimal(s).last() != '0'
            && trimmed_decimal(s).last() != '.',
        trimmed_decimal(trimmed_decimal(s)) == trimmed_decimal(s),
{
    let t = trimmed_decimal(s);
    if s.contains('.') {
        lemma_strip_prefix(s);
        let u = strip_trailing_zeros(s);
        let k = choose|k: int| 0 <= k < s.len() && s[k] == '.';
        assert(k < u.len());
        if u.len() > 0 && u.last() == '.' {
            assert(u.len() - 1 == k);
            assert(!t.contains('.')) by {
                if t.contains('.') {
                    let m = choose|m: int| 0 <= m < t.len() && t[m] == '.';
                    assert(s[m] == '.');
                }
            }
            assert(trimmed_decimal(t) == t);
        } else {
            assert(u[k] == '.');
            assert(t.contains('.'));
            lemma_strip_prefix(t);
            assert(strip_trailing_zeros(t) == t);
        }
    }
}

// ---------------------------------------------------------------------------
// Lists

/// The parts joined with `sep` between neighbours.
pub open spec fn joined(parts: Seq<Seq<char>>, sep: Seq<char>) -> Seq<char>
    decreases parts.len(),
{
    if parts.len() == 0 {
        Seq::empty()
    } else if parts.len() == 1 {
        parts[0]
    } else {
        joined(parts.drop_last(), sep) + sep + parts.last()
    }
}

/// A Desmos list literal: the values between brackets, separated by commas.
pub open spec fn list_text(values: Seq<Seq<char>>) -> Seq<char> {
    "["@ + joined(values, ","@) + "]"@
}

/// A list literal of one value is that value between brackets, and each
/// further value goes before the closing bracket after a comma.
pub proof fn lemma_list_text_grows(values: Seq<Seq<char>>, v: Seq<char>)
    ensures
        list_text(Seq::empty()) == "["@ + "]"@,
        list_text(seq![v]) == "["@ + v + "]"@,
        values.len() > 0 ==> list_text(values.push(v)) == list_text(values).drop_last() + ","@ + v
            + "]"@,
{
    reveal_strlit("]");
    assert(joined(Seq::<Seq<char>>::empty(), ","@) =~= Seq::<char>::empty());
    assert(list_text(Seq::empty()) =~= "["@ + "]"@);
    assert(list_text(seq![v]) =~= "["@ + v + "]"@);
    if values.len() > 0 {
        assert(values.push(v).drop_last() =~= values);
        assert(list_text(values).drop_last() =~= "["@ + joined(values, ","@));
        assert(list_text(values.push(v)) =~= list_text(values).drop_last() + ","@ + v + "]"@);
    }
}

pub open spec fn texts(values: Seq<String>) -> Seq<Seq<char>> {
    values.map_values(|v: String| v@)
}

/// Writes a Desmos list literal of the given numbers, such as `[0,-2]`.
pub fn number_list(values: &Vec<String>) -> (list: String)
    ensures
        list@ == list_text(texts(values@)),
{
    let mut list = String::from_str("[");
    let ghost all = texts(values@);
    let mut i: usize = 0;
    while i < values.len()
        invariant
            i <= values@.len(),
            all == texts(values@),
            list@ == "["@ + joined(all.take(i as int), ","@),
        decreases values@.len() - i,
    {
        let ghost before = list@;
        if i > 0 {
            list.append(",");
        }
        list.append(values[i].as_str());
        assert(all.take(i + 1).drop_last() =~= all.take(i as int));
        assert(all.take(i + 1).last() == values@[i as int]@);
        if i == 0 {
            assert(all.take(1) =~= seq![values@[0]@]);
        }
        assert(list@ =~= "["@ + joined(all.take(i + 1), ","@));
        i = i + 1;
    }
    assert(all.take(i as int) =~= all);
    list.append("]");
    list
}

// ---------------------------------------------------------------------------
// Primitive batches

/// Control point `k` of a primitive: a line has `from` (0) and `to` (1), a
/// Bézier curve `p0` to `p3`.
pub open spec fn control_point(p: PrimitiveText, k: nat) -> PointText {
    match p {
        PrimitiveText::Line { from, to } => if k == 0 {
            from
        } else {
            to
        },
        PrimitiveText::CubicBezier { p0, p1, p2, p3 } => if k == 0 {
            p0
        } else if k == 1 {
            p1
        } else if k == 2 {
            p2
        } else {
            p3
        },
    }
}

pub open spec fn axis_text(p: PointText, axis: Axis) -> Seq<char> {
    match axis {
        Axis::X => p.x@,
        Axis::Y => p.y@,
    }
}

pub open spec fn is_line(p: PrimitiveText) -> bool {
    p is Line
}

/// One coordinate of control point `k` of every line (`lines`) or every
/// Bézier curve (`!lines`), in the order the primitives come.
pub open spec fn column(prims: Seq<PrimitiveText>, lines: bool, k: nat, axis: Axis) -> Seq<Seq<char>>
    decreases prims.len(),
{
    if prims.len() == 0 {
        Seq::empty()
    } else {
        let rest = column(prims.drop_last(), lines, k, axis);
        if is_line(prims.last()) == lines {
            rest.push(axis_text(control_point(prims.last(), k), axis))
        } else {
            rest
        }
    }
}

/// The primitives of one kind have the same number of entries in every column.
pub proof fn lemma_column_len(prims: Seq<PrimitiveText>, lines: bool, k1: nat, a1: Axis, k2: nat, a2: Axis)
    ensures
        column(prims, lines, k1, a1).len() == column(prims, lines, k2, a2).len(),
    decreases prims.len(),
{
    if prims.len() > 0 {
        lemma_column_len(prims.drop_last(), lines, k1, a1, k2, a2);
    }
}

fn coordinate(p: &PointText, axis: Axis) -> (text: String)
    ensures
        text@ == axis_text(*p, axis),
{
    match axis {
        Axis::X => p.x.clone(),
        Axis::Y => p.y.clone(),
    }
}

fn pick_point(p: &PrimitiveText, k: usize) -> (point: &PointText)
    ensures
        *point == control_point(*p, k as nat),
{
    match p {
        PrimitiveText::Line { from, to } => if k == 0 {
            from
        } else {
            to
        },
        PrimitiveText::CubicBezier { p0, p1, p2, p3 } => if k == 0 {
            p0
        } else if k == 1 {
            p1
        } else if k == 2 {
            p2
        } else {
            p3
        },
    }
}

fn column_texts(prims: &[PrimitiveText], lines: bool, k: usize, axis: Axis) -> (col: Vec<String>)
    ensures
        texts(col@) == column(prims@, lines, k as nat, axis),
{
    let mut col: Vec<String> = Vec::new();
    let mut i: usize = 0;
    while i < prims.len()
        invariant
            i <= prims@.len(),
            texts(col@) == column(prims@.take(i as int), lines, k as nat, axis),
        decreases prims@.len() - i,
    {
        let p = &prims[i];
        assert(prims@.take(i + 1).drop_last() =~= prims@.take(i as int));
        assert(prims@.take(i + 1).last() == prims@[i as int]);
        let line = match p {
            PrimitiveText::Line { .. } => true,
            PrimitiveText::CubicBezier { .. } => false,
        };
        if line == lines {
            let ghost before = col@;
            col.push(coordinate(pick_point(p, k), axis));
            assert(texts(col@) =~= texts(before).push(axis_text(control_point(*p, k as nat), axis)));
        }
        i = i + 1;
    }
    assert(prims@.take(i as int) =~= prims@);
    col
}

fn push_named_list(out: &mut String, name: &str, prims: &[PrimitiveText], lines: bool, k: usize, axis: Axis)
    ensures
        final(out)@ == old(out)@ + name@ + list_text(column(prims@, lines, k as nat, axis)),
{
    let col = column_texts(prims, lines, k, axis);
    let list = number_list(&col);
    let ghost start = out@;
    out.append(name);
    out.append(list.as_str());
    assert(out@ =~= start + name@ + list_text(column(prims@, lines, k as nat, axis)));
}

/// The Desmos curve drawing every line of the batch `U_1..U_2`, `V_1..V_2`.
pub open spec fn line_curve() -> Seq<char> {
    "(U_1+(U_2-U_1)*t,V_1+(V_2-V_1)*t)"@
}

/// The Desmos curve drawing every Bézier curve of the batch `A_*`, `B_*`.
pub open spec fn bezier_curve() -> Seq<char> {
    "((1-t)^3*A_0+3*(1-t)^2*t*A_1+3*(1-t)*t^2*A_2+t^3*A_3,(1-t)^3*B_0+3*(1-t)^2*t*B_1+3*(1-t)*t^2*B_2+t^3*B_3)"@
}

/// Every line as one Desmos parametric curve over list variables: the start
/// and end x in `U_1`, `U_2`, the start and end y in `V_1`, `V_2`, one per
/// line; nothing when there is no line.
pub open spec fn lines_export_text(prims: Seq<PrimitiveText>) -> Seq<char> {
    if column(prims, true, 0, Axis::X).len() == 0 {
        Seq::empty()
    } else {
        "U_1="@ + list_text(column(prims, true, 0, Axis::X)) + "\n"@ + "U_2="@ + list_text(
            column(prims, true, 1, Axis::X),
        ) + "\n"@ + "V_1="@ + list_text(column(prims, true, 0, Axis::Y)) + "\n"@ + "V_2="@
            + list_text(column(prims, true, 1, Axis::Y)) + "\n"@ + line_curve()
    }
}

/// Every Bézier curve as one Desmos parametric curve over list variables:
/// the x of the control points in `A_0`..`A_3`, their y in `B_0`..`B_3`;
/// nothing when there is no Bézier curve.
pub open spec fn beziers_export_text(prims: Seq<PrimitiveText>) -> Seq<char> {
    if column(prims, false, 0, Axis::X).len() == 0 {
        Seq::empty()
    } else {
        "A_0="@ + list_text(column(prims, false, 0, Axis::X)) + "\n"@ + "A_1="@ + list_text(
            column(prims, false, 1, Axis::X),
        ) + "\n"@ + "A_2="@ + list_text(column(prims, false, 2, Axis::X)) + "\n"@ + "A_3="@
            + list_text(column(prims, false, 3, Axis::X)) + "\n"@ + "B_0="@ + list_text(
            column(prims, false, 0, Axis::Y),
        ) + "\n"@ + "B_1="@ + list_text(column(prims, false, 1, Axis::Y)) + "\n"@ + "B_2="@
            + list_text(column(prims, false, 2, Axis::Y)) + "\n"@ + "B_3="@ + list_text(
            column(prims, false, 3, Axis::Y),
        ) + "\n"@ + bezier_curve()
    }
}

/// The line batch, then the Bézier batch, on separate lines; a batch that is
/// empty is left out.
pub open spec fn mixed_export_text(prims: Seq<PrimitiveText>) -> Seq<char> {
    let lines = lines_export_text(prims);
    let beziers = beziers_export_text(prims);
    if lines.len() == 0 {
        beziers
    } else if beziers.len() == 0 {
        lines
    } else {
        lines + "\n"@ + beziers
    }
}

proof fn lemma_bezier_column(prims: Seq<PrimitiveText>, k: nat, axis: Axis)
    ensures
        column(prims, false, k, axis) == prims.filter(|p: PrimitiveText| p is CubicBezier).map_values(
            |p: PrimitiveText| axis_text(control_point(p, k), axis),
        ),
    decreases prims.len(),
{
    reveal(Seq::filter);
    if prims.len() > 0 {
        lemma_bezier_column(prims.drop_last(), k, axis);
        assert(column(prims, false, k, axis) =~= prims.filter(|p: PrimitiveText| p is CubicBezier).map_values(
            |p: PrimitiveText| axis_text(control_point(p, k), axis),
        ));
    }
}

proof fn lemma_line_column(prims: Seq<PrimitiveText>, k: nat, axis: Axis)
    ensures
        column(prims, true, k, axis) == prims.filter(|p: PrimitiveText| p is Line).map_values(
            |p: PrimitiveText| axis_text(control_point(p, k), axis),
        ),
    decreases prims.len(),
{
    reveal(Seq::filter);
    if prims.len() > 0 {
        lemma_line_column(prims.drop_last(), k, axis);
        assert(column(prims, true, k, axis) =~= prims.filter(|p: PrimitiveText| p is Line).map_values(
            |p: PrimitiveText| axis_text(control_point(p, k), axis),
        ));
    }
}

/// The Bézier export lists, for each control point `p_k` of the Bézier
/// curves in their order, the x in `A_k` and the y in `B_k`; lines take no
/// part, and without a Bézier curve there is no text.
pub proof fn lemma_bezier_export_lists_control_points(prims: Seq<PrimitiveText>)
    ensures
        ({
            let bs = prims.filter(|p: PrimitiveText| p is CubicBezier);
            &&& bs.len() == 0 ==> beziers_export_text(prims).len() == 0
            &&& bs.len() > 0 ==> beziers_export_text(prims) == "A_0="@ + list_text(
                bs.map_values(|p: PrimitiveText| p->p0.x@),
            ) + "\n"@ + "A_1="@ + list_text(bs.map_values(|p: PrimitiveText| p->p1.x@)) + "\n"@
                + "A_2="@ + list_text(bs.map_values(|p: PrimitiveText| p->p2.x@)) + "\n"@
                + "A_3="@ + list_text(bs.map_values(|p: PrimitiveText| p->p3.x@)) + "\n"@
                + "B_0="@ + list_text(bs.map_values(|p: PrimitiveText| p->p0.y@)) + "\n"@
                + "B_1="@ + list_text(bs.map_values(|p: PrimitiveText| p->p1.y@)) + "\n"@
                + "B_2="@ + list_text(bs.map_values(|p: PrimitiveText| p->p2.y@)) + "\n"@
                + "B_3="@ + list_text(bs.map_values(|p: PrimitiveText| p->p3.y@)) + "\n"@
                + "((1-t)^3*A_0+3*(1-t)^2*t*A_1+3*(1-t)*t^2*A_2+t^3*A_3,(1-t)^3*B_0+3*(1-t)^2*t*B_1+3*(1-t)*t^2*B_2+t^3*B_3)"@
        }),
{
    broadcast use vstd::seq_lib::group_filter_ensures;
    let bs = prims.filter(|p: PrimitiveText| p is CubicBezier);
    lemma_bezier_column(prims, 0, Axis::X);
    lemma_bezier_column(prims, 1, Axis::X);
    lemma_bezier_column(prims, 2, Axis::X);
    lemma_bezier_column(prims, 3, Axis::X);
    lemma_bezier_column(prims, 0, Axis::Y);
    lemma_bezier_column(prims, 1, Axis::Y);
    lemma_bezier_column(prims, 2, Axis::Y);
    lemma_bezier_column(prims, 3, Axis::Y);
    assert forall|i: int| 0 <= i < bs.len() implies #[trigger] bs[i] is CubicBezier by {
        prims.lemma_filter_pred(|p: PrimitiveText| p is CubicBezier, i);
    }
    assert(bs.map_values(|p: PrimitiveText| axis_text(control_point(p, 0), Axis::X)) =~= bs.map_values(|p: PrimitiveText| p->p0.x@));
    assert(bs.map_values(|p: PrimitiveText| axis_text(control_point(p, 1), Axis::X)) =~= bs.map_values(|p: PrimitiveText| p->p1.x@));
    assert(bs.map_values(|p: PrimitiveText| axis_text(control_point(p, 2), Axis::X)) =~= bs.map_values(|p: PrimitiveText| p->p2.x@));
    assert(bs.map_values(|p: PrimitiveText| axis_text(control_point(p, 3), Axis::X)) =~= bs.map_values(|p: PrimitiveText| p->p3.x@));
    assert(bs.map_values(|p: PrimitiveText| axis_text(control_point(p, 0), Axis::Y)) =~= bs.map_values(|p: PrimitiveText| p->p0.y@));
    assert(bs.map_values(|p: PrimitiveText| axis_text(control_point(p, 1), Axis::Y)) =~= bs.map_values(|p: PrimitiveText| p->p1.y@));
    assert(bs.map_values(|p: PrimitiveText| axis_text(control_point(p, 2), Axis::Y)) =~= bs.map_values(|p: PrimitiveText| p->p2.y@));
    assert(bs.map_values(|p: PrimitiveText| axis_text(control_point(p, 3), Axis::Y)) =~= bs.map_values(|p: PrimitiveText| p->p3.y@));
}

/// The line export lists, for the lines in their order, the x of the start
/// in `U_1`, of the end in `U_2`, the y of the start in `V_1`, of the end in
/// `V_2`; Bézier curves take no part, and without a line there is no text.
pub proof fn lemma_line_export_lists_end_points(prims: Seq<PrimitiveText>)
    ensures
        ({
            let ls = prims.filter(|p: PrimitiveText| p is Line);
            &&& ls.len() == 0 ==> lines_export_text(prims).len() == 0
            &&& ls.len() > 0 ==> lines_export_text(prims) == "U_1="@ + list_text(
                ls.map_values(|p: PrimitiveText| p->from.x@),
            ) + "\n"@ + "U_2="@ + list_text(ls.map_values(|p: PrimitiveText| p->to.x@)) + "\n"@
                + "V_1="@ + list_text(ls.map_values(|p: PrimitiveText| p->from.y@)) + "\n"@
                + "V_2="@ + list_text(ls.map_values(|p: PrimitiveText| p->to.y@)) + "\n"@
                + "(U_1+(U_2-U_1)*t,V_1+(V_2-V_1)*t)"@
        }),
{
    broadcast use vstd::seq_lib::group_filter_ensures;
    let ls = prims.filter(|p: PrimitiveText| p is Line);
    lemma_line_column(prims, 0, Axis::X);
    lemma_line_column(prims, 1, Axis::X);
    lemma_line_column(prims, 0, Axis::Y);
    lemma_line_column(prims, 1, Axis::Y);
    assert forall|i: int| 0 <= i < ls.len() implies #[trigger] ls[i] is Line by {
        prims.lemma_filter_pred(|p: PrimitiveText| p is Line, i);
    }
    assert(ls.map_values(|p: PrimitiveText| axis_text(control_point(p, 0), Axis::X)) =~= ls.map_values(|p: PrimitiveText| p->from.x@));
    assert(ls.map_values(|p: PrimitiveText| axis_text(control_point(p, 1), Axis::X)) =~= ls.map_values(|p: PrimitiveText| p->to.x@));
    assert(ls.map_values(|p: PrimitiveText| axis_text(control_point(p, 0), Axis::Y)) =~= ls.map_values(|p: PrimitiveText| p->from.y@));
    assert(ls.map_values(|p: PrimitiveText| axis_text(control_point(p, 1), Axis::Y)) =~= ls.map_values(|p: PrimitiveText| p->to.y@));
}

/// The mixed export is the line batch, then the Bézier batch on the next
/// line; a batch without primitives is left out with its line break.
pub proof fn lemma_mixed_lines_then_beziers(prims: Seq<PrimitiveText>)
    ensures
        lines_export_text(prims).len() == 0 ==> mixed_export_text(prims) == beziers_export_text(prims),
        beziers_export_text(prims).len() == 0 ==> mixed_export_text(prims) == lines_export_text(prims),
        lines_export_text(prims).len() > 0 && beziers_export_text(prims).len() > 0
            ==> mixed_export_text(prims) == lines_export_text(prims) + "\n"@ + beziers_export_text(prims),
{
}

fn has_kind(prims: &[PrimitiveText], lines: bool) -> (found: bool)
    ensures
        found == (column(prims@, lines, 0, Axis::X).len() > 0),
{
    let col = column_texts(prims, lines, 0, Axis::X);
    col.len() > 0
}

/// The lines among `prims`, exported as one Desmos batch (see
/// `lines_export_text`); Bézier curves are ignored.
pub fn export_lines(prims: &[PrimitiveText]) -> (export: String)
    ensures
        export@ == lines_export_text(prims@),
{
    if !has_kind(prims, true) {
        return String::new();
    }
    let mut out = String::new();
    push_named_list(&mut out, "U_1=", prims, true, 0, Axis::X);
    out.append("\n");
    push_named_list(&mut out, "U_2=", prims, true, 1, Axis::X);
    out.append("\n");
    push_named_list(&mut out, "V_1=", prims, true, 0, Axis::Y);
    out.append("\n");
    push_named_list(&mut out, "V_2=", prims, true, 1, Axis::Y);
    out.append("\n");
    out.append("(U_1+(U_2-U_1)*t,V_1+(V_2-V_1)*t)");
    assert(out@ =~= lines_export_text(prims@));
    out
}

/// The Bézier curves among `prims`, exported as one Desmos batch (see
/// `beziers_export_text`); lines are ignored.
pub fn export_beziers(prims: &[PrimitiveText]) -> (export: String)
    ensures
        export@ == beziers_export_text(prims@),
{
    if !has_kind(prims, false) {
        return String::new();
    }
    let mut out = String::new();
    push_named_list(&mut out, "A_0=", prims, false, 0, Axis::X);
    out.append("\n");
    push_named_list(&mut out, "A_1=", prims, false, 1, Axis::X);
    out.append("\n");
    push_named_list(&mut out, "A_2=", prims, false, 2, Axis::X);
    out.append("\n");
    push_named_list(&mut out, "A_3=", prims, false, 3, Axis::X);
    out.append("\n");
    push_named_list(&mut out, "B_0=", prims, false, 0, Axis::Y);
    out.append("\n");
    push_named_list(&mut out, "B_1=", prims, false, 1, Axis::Y);
    out.append("\n");
    push_named_list(&mut out, "B_2=", prims, false, 2, Axis::Y);
    out.append("\n");
    push_named_list(&mut out, "B_3=", prims, false, 3, Axis::Y);
    out.append("\n");
    out.append(
        "((1-t)^3*A_0+3*(1-t)^2*t*A_1+3*(1-t)*t^2*A_2+t^3*A_3,(1-t)^3*B_0+3*(1-t)^2*t*B_1+3*(1-t)*t^2*B_2+t^3*B_3)",
    );
    assert(out@ =~= beziers_export_text(prims@));
    out
}

/// Both batches of `prims`, lines first (see `mixed_export_text`).
pub fn export_mixed(prims: &[PrimitiveText]) -> (export: String)
    ensures
        export@ == mixed_export_text(prims@),
{
    let lines = export_lines(prims);
    let beziers = export_beziers(prims);
    if lines.unicode_len() == 0 {
        return beziers;
    }
    if beziers.unicode_len() == 0 {
        return lines;
    }
    let mut out = lines;
    out.append("\n");
    out.append(beziers.as_str());
    out
}

// ---------------------------------------------------------------------------
// Functions y = f(x)

/// The power of x that follows a coefficient: nothing, `x`, or `x^p`.
pub open spec fn power_suffix(p: nat) -> Seq<char> {
    if p == 0 {
        Seq::empty()
    } else if p == 1 {
        "x"@
    } else {
        "x^"@ + decimal(p)
    }
}

/// The sign written before a term: `-` for a negative coefficient, `+` for a
/// positive one that follows another term, nothing for a positive first term.
pub open spec fn sign_text(c: CoefficientText, started: bool) -> Seq<char> {
    if c.negative {
        "-"@
    } else if started {
        "+"@
    } else {
        Seq::empty()
    }
}

/// Some coefficient of power `lo <= p < hi` is significant.
pub open spec fn significant_between(cs: Seq<CoefficientText>, lo: int, hi: int) -> bool {
    exists|i: int| lo <= i < hi && 0 <= i < cs.len() && #[trigger] cs[i].significant
}

/// The significant terms of powers below `n`, highest power first.
pub open spec fn polynomial_terms(cs: Seq<CoefficientText>, n: nat, started: bool) -> Seq<char>
    decreases n,
{
    if n == 0 || n > cs.len() {
        Seq::empty()
    } else {
        let p = (n - 1) as nat;
        let c = cs[p as int];
        if !c.significant {
            polynomial_terms(cs, p, started)
        } else {
            sign_text(c, started) + c.magnitude@ + power_suffix(p) + polynomial_terms(cs, p, true)
        }
    }
}

proof fn lemma_terms_prefix(cs: Seq<CoefficientText>, c: CoefficientText, n: nat, started: bool)
    requires
        n <= cs.len(),
    ensures
        polynomial_terms(cs.push(c), n, started) == polynomial_terms(cs, n, started),
    decreases n,
{
    if n > 0 {
        let p = (n - 1) as nat;
        lemma_terms_prefix(cs, c, p, started);
        lemma_terms_prefix(cs, c, p, true);
        assert(cs.push(c)[p as int] == cs[p as int]);
    }
}

proof fn lemma_terms_skip(cs: Seq<CoefficientText>, m: nat, n: nat, started: bool)
    requires
        m <= n <= cs.len(),
        forall|i: int| m <= i < n ==> !(#[trigger] cs[i]).significant,
    ensures
        polynomial_terms(cs, n, started) == polynomial_terms(cs, m, started),
    decreases n,
{
    if n > m {
        lemma_terms_skip(cs, m, (n - 1) as nat, started);
    }
}

/// The written sign of the first term: after another term a positive
/// coefficient gets a `+`, at the front it gets nothing; a negative one gets
/// `-` either way.
proof fn lemma_terms_after_start(cs: Seq<CoefficientText>, q: int)
    requires
        0 <= q < cs.len(),
        cs[q].significant,
        forall|i: int| q < i < cs.len() ==> !(#[trigger] cs[i]).significant,
    ensures
        polynomial_terms(cs, cs.len(), true) == (if cs[q].negative {
            Seq::<char>::empty()
        } else {
            "+"@
        }) + polynomial_terms(cs, cs.len(), false),
{
    lemma_terms_skip(cs, (q + 1) as nat, cs.len(), true);
    lemma_terms_skip(cs, (q + 1) as nat, cs.len(), false);
    let rest = polynomial_terms(cs, q as nat, true);
    let tail = cs[q].magnitude@ + power_suffix(q as nat) + rest;
    assert(polynomial_terms(cs, (q + 1) as nat, true) == sign_text(cs[q], true) + cs[q].magnitude@
        + power_suffix(q as nat) + rest);
    assert(polynomial_terms(cs, (q + 1) as nat, false) == sign_text(cs[q], false) + cs[q].magnitude@
        + power_suffix(q as nat) + rest);
    if cs[q].negative {
        assert(polynomial_terms(cs, (q + 1) as nat, true) =~= polynomial_terms(cs, (q + 1) as nat, false));
    } else {
        assert(polynomial_terms(cs, (q + 1) as nat, true) =~= "+"@ + polynomial_terms(cs, (q + 1) as nat, false));
    }
}

/// A polynomial with one significant coefficient, of power `p`, is written
/// `y=` then `-` if it is negative, its magnitude, then nothing, `x` or
/// `x^p` for power 0, 1 or more; then the domain restriction.
pub proof fn lemma_polynomial_single_term(cs: Seq<CoefficientText>, p: int, domain: Option<DomainText>)
    requires
        0 <= p < cs.len(),
        cs[p].significant,
        forall|i: int| 0 <= i < cs.len() && i != p ==> !(#[trigger] cs[i]).significant,
    ensures
        polynomial_export_text(cs, domain) == "y="@ + (if cs[p].negative {
            "-"@
        } else {
            Seq::<char>::empty()
        }) + cs[p].magnitude@ + (if p == 0 {
            Seq::<char>::empty()
        } else if p == 1 {
            "x"@
        } else {
            "x^"@ + decimal(p as nat)
        }) + (match domain {
            None => Seq::<char>::empty(),
            Some(d) => "\\left\\{"@ + d.min@ + "\\le x\\le "@ + d.max@ + "\\right\\}"@,
        }),
{
    lemma_terms_skip(cs, (p + 1) as nat, cs.len(), false);
    lemma_terms_skip(cs, 0, p as nat, true);
    assert(significant_between(cs, 0, cs.len() as int));
    assert(polynomial_terms(cs, 0, true) =~= Seq::<char>::empty());
    assert(polynomial_terms(cs, (p + 1) as nat, false) =~= sign_text(cs[p], false) + cs[p].magnitude@
        + power_suffix(p as nat));
}

/// Writing a polynomial with one more coefficient, of a new highest power:
/// that term comes first, with `-` if negative and no sign otherwise, then
/// the old polynomial's terms, its first term now signed `+` if positive.
/// `q` is the power of the old polynomial's highest significant term.
pub proof fn lemma_polynomial_new_highest_term(
    cs: Seq<CoefficientText>,
    c: CoefficientText,
    q: int,
    domain: Option<DomainText>,
)
    requires
        c.significant,
        0 <= q < cs.len(),
        cs[q].significant,
        forall|i: int| q < i < cs.len() ==> !(#[trigger] cs[i]).significant,
    ensures
        polynomial_export_text(cs.push(c), domain) == "y="@ + (if c.negative {
            "-"@
        } else {
            Seq::<char>::empty()
        }) + c.magnitude@ + (if cs.len() == 1 {
            "x"@
        } else {
            "x^"@ + decimal(cs.len())
        }) + (if cs[q].negative {
            Seq::<char>::empty()
        } else {
            "+"@
        }) + polynomial_export_text(cs, domain).subrange(2, polynomial_export_text(cs, domain).len() as int),
{
    let n = cs.len();
    let ds = cs.push(c);
    assert(ds[n as int] == c);
    assert(significant_between(ds, 0, ds.len() as int)) by {
        assert(ds[n as int].significant);
    }
    assert(significant_between(cs, 0, cs.len() as int)) by {
        assert(cs[q].significant);
    }
    lemma_terms_prefix(cs, c, n, true);
    lemma_terms_after_start(cs, q);
    let old_text = polynomial_export_text(cs, domain);
    reveal_strlit("y=");
    assert(old_text == "y="@ + (polynomial_terms(cs, n, false) + domain_suffix(domain)));
    assert(old_text.subrange(2, old_text.len() as int) =~= polynomial_terms(cs, n, false)
        + domain_suffix(domain));
    assert(polynomial_export_text(ds, domain) =~= "y="@ + sign_text(c, false) + c.magnitude@
        + power_suffix(n) + polynomial_terms(ds, n, true) + domain_suffix(domain));
}

/// The Desmos restriction to an x interval, or nothing.
pub open spec fn domain_suffix(domain: Option<DomainText>) -> Seq<char> {
    match domain {
        None => Seq::empty(),
        Some(d) => "\\left\\{"@ + d.min@ + "\\le x\\le "@ + d.max@ + "\\right\\}"@,
    }
}

/// `y=` and the polynomial with coefficient `i` for power `i`, highest power
/// first, leaving out coefficients too small to matter (`y=0` when all are);
/// then the domain restriction. Nothing at all for an empty coefficient list.
pub open spec fn polynomial_export_text(cs: Seq<CoefficientText>, domain: Option<DomainText>) -> Seq<
    char,
> {
    if cs.len() == 0 {
        Seq::empty()
    } else {
        "y="@ + (if significant_between(cs, 0, cs.len() as int) {
            polynomial_terms(cs, cs.len(), false)
        } else {
            "0"@
        }) + domain_suffix(domain)
    }
}

fn push_domain(out: &mut String, domain: &Option<DomainText>)
    ensures
        final(out)@ == old(out)@ + domain_suffix(*domain),
{
    match domain {
        Some(d) => {
            let ghost start = out@;
            out.append("\\left\\{");
            out.append(d.min.as_str());
            out.append("\\le x\\le ");
            out.append(d.max.as_str());
            out.append("\\right\\}");
            assert(out@ =~= start + domain_suffix(*domain));
        },
        None => {
            assert(out@ =~= old(out)@ + domain_suffix(*domain));
        },
    }
}

/// Writes a polynomial as a Desmos function of x (see `polynomial_export_text`).
pub fn export_polynomial(coefficients: &[CoefficientText], domain: &Option<DomainText>) -> (export:
    String)
    ensures
        export@ == polynomial_export_text(coefficients@, *domain),
{
    let n = coefficients.len();
    if n == 0 {
        return String::new();
    }
    let ghost cs = coefficients@;
    let mut body = String::new();
    let mut started = false;
    let mut p: usize = n;
    while p > 0
        invariant
            cs == coefficients@,
            n == cs.len(),
            p <= n,
            started == significant_between(cs, p as int, n as int),
            body@ + polynomial_terms(cs, p as nat, started) == polynomial_terms(cs, n as nat, false),
        decreases p,
    {
        p = p - 1;
        let c = &coefficients[p];
        if c.significant {
            let ghost before = body@;
            if c.negative {
                body.append("-");
            } else if started {
                body.append("+");
            }
            body.append(c.magnitude.as_str());
            if p == 1 {
                body.append("x");
            } else if p >= 2 {
                body.append("x^");
                push_decimal(&mut body, p);
            }
            assert(body@ =~= before + sign_text(*c, started) + c.magnitude@ + power_suffix(p as nat));
            assert(significant_between(cs, p as int, n as int)) by {
                assert(cs[p as int].significant);
            }
            started = true;
        } else {
            assert(significant_between(cs, p as int, n as int) == significant_between(
                cs,
                p + 1,
                n as int,
            )) by {
                if significant_between(cs, p as int, n as int) {
                    let i = choose|i: int|
                        p <= i < n && 0 <= i < cs.len() && #[trigger] cs[i].significant;
                    assert(i != p);
                }
            }
        }
    }
    let mut out = String::from_str("y=");
    if started {
        out.append(body.as_str());
    } else {
        out.append("0");
    }
    push_domain(&mut out, domain);
    out
}

/// `y=c+ae^(bx)` in Desmos form, then the domain restriction; nothing when
/// the coefficients are not all finite.
pub open spec fn exponential_export_text(
    finite: bool,
    offset: Seq<char>,
    amplitude_negative: bool,
    amplitude: Seq<char>,
    rate: Seq<char>,
    domain: Option<DomainText>,
) -> Seq<char> {
    if !finite {
        Seq::empty()
    } else {
        "y="@ + offset + (if amplitude_negative {
            "-"@
        } else {
            "+"@
        }) + amplitude + "e^("@ + rate + "x)"@ + domain_suffix(domain)
    }
}

/// Writes `y = offset + amplitude * e^(rate * x)` as a Desmos function of x
/// (see `exponential_export_text`); `amplitude` is the magnitude and
/// `amplitude_negative` its sign.
pub fn export_exponential(
    finite: bool,
    offset: &str,
    amplitude_negative: bool,
    amplitude: &str,
    rate: &str,
    domain: &Option<DomainText>,
) -> (export: String)
    ensures
        export@ == exponential_export_text(
            finite,
            offset@,
            amplitude_negative,
            amplitude@,
            rate@,
            *domain,
        ),
{
    if !finite {
        return String::new();
    }
    let mut out = String::from_str("y=");
    out.append(offset);
    if amplitude_negative {
        out.append("-");
    } else {
        out.append("+");
    }
    out.append(amplitude);
    out.append("e^(");
    out.append(rate);
    out.append("x)");
    push_domain(&mut out, domain);
    assert(out@ =~= exponential_export_text(
        finite,
        offset@,
        amplitude_negative,
        amplitude@,
        rate@,
        *domain,
    ));
    out
}

} // verus!
