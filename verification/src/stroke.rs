use vstd::prelude::*;

verus! {

/// A point of the drawing plane, held as the IEEE-754 bit patterns of its two
/// `f32` coordinates.
#[derive(Clone, Copy, Debug, PartialEq, Eq, Structural)]
pub struct PointBits {
    pub x: u32,
    pub y: u32,
}

/// One stroke: its points in drawing order, its colour as four bytes (the
/// premultiplied red, green, blue and alpha of the pen) and the bit pattern
/// of its `f32` width.
#[derive(Clone, Debug)]
pub struct StrokeRecord {
    pub points: Vec<PointBits>,
    pub color: [u8; 4],
    pub width: u32,
}

/// The 64-bit FNV offset basis the fingerprint starts from.
pub const FNV_OFFSET: u64 = 14_695_981_039_346_656_037u64;

/// The 64-bit FNV prime.
pub const FNV_PRIME: u64 = 1_099_511_628_211u64;

/// One FNV-1a step: fold `value` into `hash`.
pub open spec fn mix(hash: u64, value: u64) -> u64 {
    vstd::wrapping::u64_specs::wrapping_mul(hash ^ value, FNV_PRIME)
}

/// Folds both coordinates of every point, in order, into `hash`.
pub open spec fn mix_points(hash: u64, points: Seq<PointBits>) -> u64
    decreases points.len(),
{
    if points.len() == 0 {
        hash
    } else {
        let before = mix_points(hash, points.drop_last());
        mix(mix(before, points.last().x as u64), points.last().y as u64)
    }
}

/// The fingerprint of a sequence of strokes: for each stroke, its point count
/// and then the bit patterns of its coordinates, folded in order.
pub open spec fn strokes_hash(strokes: Seq<StrokeRecord>) -> u64
    decreases strokes.len(),
{
    if strokes.len() == 0 {
        FNV_OFFSET
    } else {
        let before = strokes_hash(strokes.drop_last());
        mix_points(mix(before, strokes.last().points@.len() as u64), strokes.last().points@)
    }
}

/// The fingerprint reads the points only: drawings whose strokes have the
/// same points, whatever their colours and widths, have the same fingerprint.
pub proof fn lemma_hash_reads_points_only(a: Seq<StrokeRecord>, b: Seq<StrokeRecord>)
    requires
        a.len() == b.len(),
        forall|i: int| 0 <= i < a.len() ==> #[trigger] a[i].points@ == b[i].points@,
    ensures
        strokes_hash(a) == strokes_hash(b),
    decreases a.len(),
{
    if a.len() > 0 {
        lemma_hash_reads_points_only(a.drop_last(), b.drop_last());
        assert(a.last().points@ == b.last().points@);
    }
}

fn mix_exec(hash: u64, value: u64) -> (mixed: u64)
    ensures
        mixed == mix(hash, value),
{
    (hash ^ value).wrapping_mul(FNV_PRIME)
}

/// The fingerprint that tells whether the drawing changed since it was saved.
/// It reads the point count of each stroke and the exact bits of every
/// coordinate; colour and width do not take part.
pub fn project_hash(strokes: &[StrokeRecord]) -> (hash: u64)
    ensures
        hash == strokes_hash(strokes@),
{
    let mut hash: u64 = FNV_OFFSET;
    let mut i: usize = 0;
    while i < strokes.len()
        invariant
            i <= strokes@.len(),
            hash == strokes_hash(strokes@.take(i as int)),
        decreases strokes@.len() - i,
    {
        let stroke = &strokes[i];
        assert(strokes@.take(i + 1).drop_last() =~= strokes@.take(i as int));
        hash = mix_exec(hash, stroke.points.len() as u64);
        let ghost start = hash;
        let mut k: usize = 0;
        while k < stroke.points.len()
            invariant
                k <= stroke.points@.len(),
                hash == mix_points(start, stroke.points@.take(k as int)),
            decreases stroke.points@.len() - k,
        {
            assert(stroke.points@.take(k + 1).drop_last() =~= stroke.points@.take(k as int));
            let point = stroke.points[k];
            hash = mix_exec(hash, point.x as u64);
            hash = mix_exec(hash, point.y as u64);
            k = k + 1;
        }
        assert(stroke.points@.take(k as int) =~= stroke.points@);
        i = i + 1;
    }
    assert(strokes@.take(i as int) =~= strokes@);
    hash
}

} // verus!
