use vstd::prelude::*;

verus! {

/// The kind of a generated primitive.
#[derive(Clone, Copy, Debug, PartialEq, Eq, Structural)]
pub enum PrimitiveKind {
    Line,
    CubicBezier,
}

/// How many entries of `kinds` are `kind`.
pub open spec fn count_kind(kinds: Seq<PrimitiveKind>, kind: PrimitiveKind) -> nat
    decreases kinds.len(),
{
    if kinds.len() == 0 {
        0
    } else {
        count_kind(kinds.drop_last(), kind) + if kinds.last() == kind {
            1nat
        } else {
            0nat
        }
    }
}

fn count_of(kinds: &[PrimitiveKind], kind: PrimitiveKind) -> (count: usize)
    ensures
        count == count_kind(kinds@, kind),
{
    let mut count: usize = 0;
    let mut i: usize = 0;
    while i < kinds.len()
        invariant
            i <= kinds@.len(),
            count == count_kind(kinds@.take(i as int), kind),
            count <= i,
        decreases kinds@.len() - i,
    {
        assert(kinds@.take(i + 1).drop_last() =~= kinds@.take(i as int));
        if kinds[i] == kind {
            count = count + 1;
        }
        i = i + 1;
    }
    assert(kinds@.take(i as int) =~= kinds@);
    count
}

/// How many of the generated primitives are line segments.
pub fn line_count(kinds: &[PrimitiveKind]) -> (count: usize)
    ensures
        count == count_kind(kinds@, PrimitiveKind::Line),
{
    count_of(kinds, PrimitiveKind::Line)
}

/// How many of the generated primitives are cubic Bézier curves.
pub fn bezier_count(kinds: &[PrimitiveKind]) -> (count: usize)
    ensures
        count == count_kind(kinds@, PrimitiveKind::CubicBezier),
{
    count_of(kinds, PrimitiveKind::CubicBezier)
}

/// Every primitive is a line or a Bézier curve: the two counts add up to the
/// number of primitives.
pub proof fn lemma_counts_add_up(kinds: Seq<PrimitiveKind>)
    ensures
        count_kind(kinds, PrimitiveKind::Line) + count_kind(kinds, PrimitiveKind::CubicBezier)
            == kinds.len(),
    decreases kinds.len(),
{
    if kinds.len() > 0 {
        lemma_counts_add_up(kinds.drop_last());
    }
}

/// A new primitive adds one to the count of its kind and leaves the other
/// kind's count; with no primitive both counts are zero.
pub proof fn lemma_count_new_primitive(kinds: Seq<PrimitiveKind>, kind: PrimitiveKind, other: PrimitiveKind)
    ensures
        count_kind(Seq::empty(), kind) == 0,
        count_kind(kinds.push(kind), kind) == count_kind(kinds, kind) + 1,
        other != kind ==> count_kind(kinds.push(kind), other) == count_kind(kinds, other),
{
    assert(kinds.push(kind).drop_last() =~= kinds);
}

} // verus!
