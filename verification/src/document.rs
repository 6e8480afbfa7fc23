use vstd::prelude::*;
use vstd::string::*;
use crate::stroke::{PointBits, StrokeRecord, project_hash, strokes_hash, FNV_OFFSET};
use crate::text::{blank, decimal, is_blank, push_decimal};

verus! {

/// The file a drawing is saved to and loaded from.
pub const PROJECT_FILE: &'static str = "drawafunc_project.json";

/// The drawing being edited: its strokes, what undo took away, the stroke and
/// shape drag under way, the last generated output, the status line, and what
/// is known about the last save.
pub struct Document {
    pub strokes: Vec<StrokeRecord>,
    pub redo_stack: Vec<StrokeRecord>,
    pub current_stroke: Option<StrokeRecord>,
    pub drag_shape_start: Option<PointBits>,
    pub generated_preview: Vec<Vec<PointBits>>,
    pub generated_text: String,
    pub status: String,
    pub last_saved_hash: u64,
    pub dirty: bool,
}

/// The state of a `Document` as plain mathematical values.
pub struct DocumentView {
    pub strokes: Seq<StrokeRecord>,
    pub redo_stack: Seq<StrokeRecord>,
    pub current_stroke: Option<StrokeRecord>,
    pub drag_shape_start: Option<PointBits>,
    pub generated_preview: Seq<Seq<PointBits>>,
    pub generated_text: Seq<char>,
    pub status: Seq<char>,
    pub last_saved_hash: u64,
    pub dirty: bool,
}

impl View for Document {
    type V = DocumentView;

    open spec fn view(&self) -> DocumentView {
        DocumentView {
            strokes: self.strokes@,
            redo_stack: self.redo_stack@,
            current_stroke: self.current_stroke,
            drag_shape_start: self.drag_shape_start,
            generated_preview: self.generated_preview@.map_values(|p: Vec<PointBits>| p@),
            generated_text: self.generated_text@,
            status: self.status@,
            last_saved_hash: self.last_saved_hash,
            dirty: self.dirty,
        }
    }
}

// ---------------------------------------------------------------------------
// The operations, as transitions of the view

/// A stroke worth keeping has at least two points.
pub open spec fn is_drawable(stroke: StrokeRecord) -> bool {
    stroke.points@.len() >= 2
}

/// The drawing matches what was saved last and nothing was edited since.
pub open spec fn is_saved(d: DocumentView) -> bool {
    !d.dirty && d.last_saved_hash == strokes_hash(d.strokes)
}

/// The generated output no longer matches the drawing: it is dropped, the
/// status says why, and the drawing counts as edited.
pub open spec fn invalidated(d: DocumentView, status: Seq<char>) -> DocumentView {
    DocumentView {
        generated_preview: Seq::empty(),
        generated_text: Seq::empty(),
        status,
        dirty: true,
        ..d
    }
}

/// A finished stroke or shape is appended when it is drawable, which empties
/// the redo history; otherwise nothing changes.
pub open spec fn with_stroke(d: DocumentView, stroke: StrokeRecord, status: Seq<char>) -> DocumentView {
    if is_drawable(stroke) {
        invalidated(
            DocumentView { strokes: d.strokes.push(stroke), redo_stack: Seq::empty(), ..d },
            status,
        )
    } else {
        d
    }
}

pub open spec fn stroke_added_status() -> Seq<char> {
    "Stroke added. Press Generate to refresh output."@
}

pub open spec fn object_added_status() -> Seq<char> {
    "Object added. Press Generate to refresh output."@
}

pub open spec fn erased_status() -> Seq<char> {
    "Erased stroke. Press Generate to refresh output."@
}

/// The last stroke moves onto the redo history.
pub open spec fn undone(d: DocumentView) -> DocumentView {
    if d.strokes.len() == 0 {
        d
    } else {
        invalidated(
            DocumentView {
                strokes: d.strokes.drop_last(),
                redo_stack: d.redo_stack.push(d.strokes.last()),
                ..d
            },
            "Undo."@,
        )
    }
}

/// The last undone stroke comes back.
pub open spec fn redone(d: DocumentView) -> DocumentView {
    if d.redo_stack.len() == 0 {
        d
    } else {
        invalidated(
            DocumentView {
                strokes: d.strokes.push(d.redo_stack.last()),
                redo_stack: d.redo_stack.drop_last(),
                ..d
            },
            "Redo."@,
        )
    }
}

/// The strokes not hit, in their order.
pub open spec fn kept_strokes(strokes: Seq<StrokeRecord>, hit: Seq<bool>) -> Seq<StrokeRecord>
    decreases strokes.len(),
{
    if strokes.len() == 0 {
        Seq::empty()
    } else {
        let rest = kept_strokes(strokes.drop_last(), hit.take(strokes.len() - 1));
        if hit[strokes.len() - 1] {
            rest
        } else {
            rest.push(strokes.last())
        }
    }
}

/// The strokes that `hit` marks are erased; if one was, the redo history is
/// dropped too.
pub open spec fn erased(d: DocumentView, hit: Seq<bool>) -> DocumentView {
    let kept = kept_strokes(d.strokes, hit);
    if kept.len() == d.strokes.len() {
        d
    } else {
        invalidated(DocumentView { strokes: kept, redo_stack: Seq::empty(), ..d }, erased_status())
    }
}

/// A non-empty canvas is wiped: strokes, redo history, shape drag and output.
pub open spec fn cleared(d: DocumentView) -> DocumentView {
    if d.strokes.len() == 0 {
        d
    } else {
        DocumentView {
            strokes: Seq::empty(),
            redo_stack: Seq::empty(),
            drag_shape_start: None,
            generated_preview: Seq::empty(),
            generated_text: Seq::empty(),
            status: "Canvas cleared."@,
            dirty: true,
            ..d
        }
    }
}

pub open spec fn saved_status() -> Seq<char> {
    "Saved to "@ + PROJECT_FILE@ + "."@
}

pub open spec fn loaded_status(count: nat) -> Seq<char> {
    "Loaded "@ + decimal(count) + " stroke(s) from "@ + PROJECT_FILE@ + "."@
}

/// The drawing was written to disk: its fingerprint is remembered.
pub open spec fn marked_saved(d: DocumentView) -> DocumentView {
    DocumentView {
        last_saved_hash: strokes_hash(d.strokes),
        dirty: false,
        status: saved_status(),
        ..d
    }
}

/// A drawing read from disk replaces the current one and its history.
pub open spec fn loaded(d: DocumentView, strokes: Seq<StrokeRecord>) -> DocumentView {
    DocumentView {
        strokes,
        redo_stack: Seq::empty(),
        current_stroke: None,
        generated_preview: Seq::empty(),
        generated_text: Seq::empty(),
        last_saved_hash: strokes_hash(strokes),
        dirty: false,
        status: loaded_status(strokes.len()),
        ..d
    }
}

// ---------------------------------------------------------------------------
// The executable document

impl Document {
    /// An empty drawing that counts as saved.
    pub fn new() -> (doc: Document)
        ensures
            doc@.strokes.len() == 0,
            doc@.redo_stack.len() == 0,
            doc@.current_stroke is None,
            doc@.drag_shape_start is None,
            doc@.generated_preview.len() == 0,
            doc@.generated_text.len() == 0,
            doc@.status == "Draw on the canvas, then press Generate."@,
            doc@.last_saved_hash == FNV_OFFSET,
            !doc@.dirty,
            is_saved(doc@),
    {
        let strokes: Vec<StrokeRecord> = Vec::new();
        let last_saved_hash = project_hash(strokes.as_slice());
        let doc = Document {
            strokes,
            redo_stack: Vec::new(),
            current_stroke: None,
            drag_shape_start: None,
            generated_preview: Vec::new(),
            generated_text: String::new(),
            status: String::from_str("Draw on the canvas, then press Generate."),
            last_saved_hash,
            dirty: false,
        };
        assert(doc@.generated_preview =~= Seq::<Seq<PointBits>>::empty());
        doc
    }

    /// Drops the generated output, sets the status and marks the drawing edited.
    pub fn invalidate_generation(&mut self, status: &str)
        ensures
            final(self)@ == invalidated(old(self)@, status@),
    {
        self.generated_preview = Vec::new();
        self.generated_text = String::new();
        self.status = String::from_str(status);
        self.dirty = true;
        assert(self@.generated_preview =~= Seq::<Seq<PointBits>>::empty());
        assert(self@ == invalidated(old(self)@, status@));
    }

    /// Begins a freehand stroke at `point` with the given pen.
    pub fn start_stroke(&mut self, color: [u8; 4], width: u32, point: PointBits)
        ensures
            final(self)@ == (DocumentView {
                current_stroke: final(self)@.current_stroke,
                ..old(self)@
            }),
            final(self)@.current_stroke matches Some(s) && s.color == color && s.width == width
                && s.points@ == seq![point],
    {
        let mut points = Vec::new();
        points.push(point);
        self.current_stroke = Some(StrokeRecord { points, color, width });
    }

    /// Extends the freehand stroke under way, if there is one, by `point`.
    pub fn push_current_point(&mut self, point: PointBits)
        ensures
            old(self)@.current_stroke is None ==> final(self)@ == old(self)@,
            old(self)@.current_stroke matches Some(s) ==> {
                &&& final(self)@ == (DocumentView {
                    current_stroke: final(self)@.current_stroke,
                    ..old(self)@
                })
                &&& final(self)@.current_stroke matches Some(t) && t.color == s.color && t.width
                    == s.width && t.points@ == s.points@.push(point)
            },
    {
        match self.current_stroke.take() {
            Some(mut stroke) => {
                stroke.points.push(point);
                self.current_stroke = Some(stroke);
            },
            None => {},
        }
    }

    /// Ends the freehand stroke under way and hands it over for smoothing.
    pub fn take_current_stroke(&mut self) -> (stroke: Option<StrokeRecord>)
        ensures
            stroke == old(self)@.current_stroke,
            final(self)@ == (DocumentView { current_stroke: None, ..old(self)@ }),
    {
        self.current_stroke.take()
    }

    fn push_stroke(&mut self, stroke: StrokeRecord, status: &str)
        ensures
            final(self)@ == with_stroke(old(self)@, stroke, status@),
    {
        if stroke.points.len() >= 2 {
            self.strokes.push(stroke);
            self.redo_stack = Vec::new();
            self.invalidate_generation(status);
        }
    }

    /// Keeps a finished freehand stroke if it has at least two points.
    pub fn finish_stroke(&mut self, stroke: StrokeRecord)
        ensures
            final(self)@ == with_stroke(old(self)@, stroke, stroke_added_status()),
    {
        self.push_stroke(stroke, "Stroke added. Press Generate to refresh output.");
    }

    /// Adds a ready-made shape if it has at least two points.
    pub fn add_stroke(&mut self, stroke: StrokeRecord)
        ensures
            final(self)@ == with_stroke(old(self)@, stroke, object_added_status()),
    {
        self.push_stroke(stroke, "Object added. Press Generate to refresh output.");
    }

    /// Erases the strokes that `hit` marks, one flag per stroke.
    pub fn erase_strokes(&mut self, hit: &[bool])
        requires
            hit@.len() == old(self)@.strokes.len(),
        ensures
            final(self)@ == erased(old(self)@, hit@),
    {
        let ghost orig = self.strokes@;
        let mut rest: Vec<StrokeRecord> = Vec::new();
        std::mem::swap(&mut rest, &mut self.strokes);
        let mut kept: Vec<StrokeRecord> = Vec::new();
        let n = hit.len();
        let mut i: usize = 0;
        while i < n
            invariant
                n == hit@.len(),
                n == orig.len(),
                i <= n,
                rest@ == orig.skip(i as int),
                kept@ == kept_strokes(orig.take(i as int), hit@.take(i as int)),
                kept@.len() <= i,
            decreases n - i,
        {
            let stroke = rest.remove(0);
            assert(orig.take(i + 1).drop_last() =~= orig.take(i as int));
            assert(hit@.take(i + 1).take(i as int) =~= hit@.take(i as int));
            assert(orig.skip(i as int).remove(0) =~= orig.skip(i + 1));
            if !hit[i] {
                kept.push(stroke);
            }
            i = i + 1;
        }
        assert(orig.take(n as int) =~= orig);
        assert(hit@.take(n as int) =~= hit@);
        if kept.len() != n {
            self.strokes = kept;
            self.redo_stack = Vec::new();
            self.invalidate_generation("Erased stroke. Press Generate to refresh output.");
        } else {
            self.strokes = kept;
            assert(self.strokes@ =~= orig) by {
                lemma_kept_all(orig, hit@);
            }
        }
    }

    /// Moves the last stroke onto the redo history.
    pub fn undo(&mut self)
        ensures
            final(self)@ == undone(old(self)@),
    {
        if let Some(stroke) = self.strokes.pop() {
            self.redo_stack.push(stroke);
            self.invalidate_generation("Undo.");
        }
    }

    /// Brings back the last undone stroke.
    pub fn redo(&mut self)
        ensures
            final(self)@ == redone(old(self)@),
    {
        if let Some(stroke) = self.redo_stack.pop() {
            self.strokes.push(stroke);
            self.invalidate_generation("Redo.");
        }
    }

    /// Wipes a non-empty canvas; an empty one is left alone.
    pub fn clear(&mut self)
        ensures
            final(self)@ == cleared(old(self)@),
    {
        if self.strokes.len() == 0 {
            return;
        }
        self.strokes = Vec::new();
        self.redo_stack = Vec::new();
        self.drag_shape_start = None;
        self.generated_preview = Vec::new();
        self.generated_text = String::new();
        self.status = String::from_str("Canvas cleared.");
        self.dirty = true;
        assert(self@.generated_preview =~= Seq::<Seq<PointBits>>::empty());
        assert(self@ == cleared(old(self)@));
    }

    /// Shows freshly generated output.
    pub fn set_generated(&mut self, preview: Vec<Vec<PointBits>>, text: String, status: String)
        ensures
            final(self)@ == (DocumentView {
                generated_preview: preview@.map_values(|p: Vec<PointBits>| p@),
                generated_text: text@,
                status: status@,
                ..old(self)@
            }),
    {
        self.generated_preview = preview;
        self.generated_text = text;
        self.status = status;
    }

    /// Records that the drawing was written to `PROJECT_FILE`.
    pub fn mark_saved(&mut self)
        ensures
            final(self)@ == marked_saved(old(self)@),
    {
        self.last_saved_hash = project_hash(self.strokes.as_slice());
        self.dirty = false;
        let mut status = String::from_str("Saved to ");
        status.append(PROJECT_FILE);
        status.append(".");
        self.status = status;
    }

    /// Reports a failed save; nothing else changes.
    pub fn save_failed(&mut self, error: &str)
        ensures
            final(self)@ == (DocumentView { status: "Save failed: "@ + error@, ..old(self)@ }),
    {
        let mut status = String::from_str("Save failed: ");
        status.append(error);
        self.status = status;
    }

    /// Replaces the drawing by one read from `PROJECT_FILE`.
    pub fn load_strokes(&mut self, strokes: Vec<StrokeRecord>)
        ensures
            final(self)@ == loaded(old(self)@, strokes@),
    {
        let count = strokes.len();
        self.last_saved_hash = project_hash(strokes.as_slice());
        self.strokes = strokes;
        self.redo_stack = Vec::new();
        self.current_stroke = None;
        self.generated_preview = Vec::new();
        self.generated_text = String::new();
        self.dirty = false;
        let mut status = String::from_str("Loaded ");
        push_decimal(&mut status, count);
        status.append(" stroke(s) from ");
        status.append(PROJECT_FILE);
        status.append(".");
        self.status = status;
        assert(self@.generated_preview =~= Seq::<Seq<PointBits>>::empty());
        assert(self@ == loaded(old(self)@, strokes@));
    }

    /// Reports a failed load; nothing else changes.
    pub fn load_failed(&mut self, error: &str)
        ensures
            final(self)@ == (DocumentView { status: "Load failed: "@ + error@, ..old(self)@ }),
    {
        let mut status = String::from_str("Load failed: ");
        status.append(error);
        self.status = status;
    }

    /// Whether there is generated text other than white space.
    pub fn has_output(&self) -> (has: bool)
        ensures
            has == !blank(self@.generated_text),
    {
        !is_blank(self.generated_text.as_str())
    }

    /// Hands out the generated text for the clipboard and says so in the
    /// status; when there is only white space, says there is nothing to copy.
    pub fn copy_output(&mut self) -> (copied: Option<String>)
        ensures
            blank(old(self)@.generated_text) ==> copied is None && final(self)@ == (DocumentView {
                status: "Nothing to copy yet."@,
                ..old(self)@
            }),
            !blank(old(self)@.generated_text) ==> (copied matches Some(text) && text@
                == old(self)@.generated_text && final(self)@ == (DocumentView {
                status: "Copied Desmos expressions to clipboard."@,
                ..old(self)@
            })),
    {
        if is_blank(self.generated_text.as_str()) {
            self.status = String::from_str("Nothing to copy yet.");
            return None;
        }
        let text = self.generated_text.clone();
        self.status = String::from_str("Copied Desmos expressions to clipboard.");
        Some(text)
    }

    /// `"Saved"` when the drawing matches the last save, else `"Unsaved"`.
    pub fn save_state_label(&self) -> (label: &'static str)
        ensures
            label@ == (if is_saved(self@) {
                "Saved"@
            } else {
                "Unsaved"@
            }),
    {
        if self.dirty || self.last_saved_hash != project_hash(self.strokes.as_slice()) {
            "Unsaved"
        } else {
            "Saved"
        }
    }
}

/// A finished stroke or shape with at least two points goes on top of the
/// drawing, ends the redo history and marks the drawing edited; one with fewer
/// points changes nothing.
pub proof fn lemma_stroke_kept_when_drawable(d: DocumentView, stroke: StrokeRecord, status: Seq<char>)
    ensures
        stroke.points@.len() >= 2 ==> {
            &&& with_stroke(d, stroke, status).strokes == d.strokes.push(stroke)
            &&& with_stroke(d, stroke, status).redo_stack.len() == 0
            &&& with_stroke(d, stroke, status).dirty
            &&& with_stroke(d, stroke, status).status == status
            &&& with_stroke(d, stroke, status).generated_text.len() == 0
        },
        stroke.points@.len() < 2 ==> with_stroke(d, stroke, status) == d,
{
}

/// Undo takes the last stroke of the drawing and puts it on top of the redo
/// history; redo takes the top of the redo history and puts it back as the
/// last stroke. With nothing to move, nothing changes.
pub proof fn lemma_undo_redo_move_the_last(d: DocumentView)
    ensures
        d.strokes.len() > 0 ==> {
            &&& undone(d).strokes == d.strokes.subrange(0, d.strokes.len() - 1)
            &&& undone(d).redo_stack == d.redo_stack + seq![d.strokes[d.strokes.len() - 1]]
            &&& undone(d).dirty
        },
        d.redo_stack.len() > 0 ==> {
            &&& redone(d).strokes == d.strokes + seq![d.redo_stack[d.redo_stack.len() - 1]]
            &&& redone(d).redo_stack == d.redo_stack.subrange(0, d.redo_stack.len() - 1)
            &&& redone(d).dirty
        },
        d.strokes.len() == 0 ==> undone(d) == d,
        d.redo_stack.len() == 0 ==> redone(d) == d,
{
    if d.strokes.len() > 0 {
        assert(undone(d).redo_stack =~= d.redo_stack + seq![d.strokes[d.strokes.len() - 1]]);
    }
    if d.redo_stack.len() > 0 {
        assert(redone(d).strokes =~= d.strokes + seq![d.redo_stack[d.redo_stack.len() - 1]]);
    }
}

/// Clearing a drawing with strokes leaves no stroke, no redo history, no
/// shape drag and no output, and marks it edited; an empty drawing is left as
/// it is.
pub proof fn lemma_clear_wipes(d: DocumentView)
    ensures
        d.strokes.len() > 0 ==> {
            &&& cleared(d).strokes.len() == 0
            &&& cleared(d).redo_stack.len() == 0
            &&& cleared(d).drag_shape_start is None
            &&& cleared(d).generated_preview.len() == 0
            &&& cleared(d).generated_text.len() == 0
            &&& cleared(d).dirty
            &&& cleared(d).current_stroke == d.current_stroke
        },
        d.strokes.len() == 0 ==> cleared(d) == d,
{
}

/// Redo gives back what undo took: after undoing the last stroke and redoing
/// it, the strokes and the redo history are as they were.
pub proof fn lemma_redo_restores_undo(d: DocumentView)
    requires
        d.strokes.len() > 0,
    ensures
        redone(undone(d)).strokes == d.strokes,
        redone(undone(d)).redo_stack == d.redo_stack,
{
    assert(redone(undone(d)).strokes =~= d.strokes);
    assert(redone(undone(d)).redo_stack =~= d.redo_stack);
}

/// Undo takes back what redo gave: after redoing a stroke and undoing it, the
/// strokes and the redo history are as they were.
pub proof fn lemma_undo_restores_redo(d: DocumentView)
    requires
        d.redo_stack.len() > 0,
    ensures
        undone(redone(d)).strokes == d.strokes,
        undone(redone(d)).redo_stack == d.redo_stack,
{
    assert(undone(redone(d)).strokes =~= d.strokes);
    assert(undone(redone(d)).redo_stack =~= d.redo_stack);
}

/// Undo and redo only move strokes between the drawing and the redo history:
/// none is lost or made up.
pub proof fn lemma_undo_redo_move_strokes(d: DocumentView)
    ensures
        undone(d).strokes + undone(d).redo_stack.reverse() == d.strokes + d.redo_stack.reverse(),
        redone(d).strokes + redone(d).redo_stack.reverse() == d.strokes + d.redo_stack.reverse(),
{
    if d.strokes.len() > 0 {
        assert(undone(d).strokes + undone(d).redo_stack.reverse() =~= d.strokes
            + d.redo_stack.reverse());
    }
    if d.redo_stack.len() > 0 {
        assert(redone(d).strokes + redone(d).redo_stack.reverse() =~= d.strokes
            + d.redo_stack.reverse());
    }
}

/// A new stroke or shape ends the redo history: redo right after it changes
/// nothing.
pub proof fn lemma_new_stroke_ends_redo(d: DocumentView, stroke: StrokeRecord, status: Seq<char>)
    requires
        is_drawable(stroke),
    ensures
        with_stroke(d, stroke, status).redo_stack.len() == 0,
        redone(with_stroke(d, stroke, status)) == with_stroke(d, stroke, status),
{
}

/// Every edit that changes the strokes leaves the drawing unsaved.
pub proof fn lemma_edits_leave_unsaved(
    d: DocumentView,
    stroke: StrokeRecord,
    status: Seq<char>,
    hit: Seq<bool>,
)
    ensures
        is_drawable(stroke) ==> !is_saved(with_stroke(d, stroke, status)),
        d.strokes.len() > 0 ==> !is_saved(undone(d)),
        d.redo_stack.len() > 0 ==> !is_saved(redone(d)),
        erased(d, hit).strokes.len() != d.strokes.len() ==> !is_saved(erased(d, hit)),
        d.strokes.len() > 0 ==> !is_saved(cleared(d)),
{
}

/// Saving, or loading, leaves a drawing that counts as saved.
pub proof fn lemma_save_and_load_leave_saved(d: DocumentView, strokes: Seq<StrokeRecord>)
    ensures
        is_saved(marked_saved(d)),
        is_saved(loaded(d, strokes)),
{
}

/// Erasing with no stroke hit changes nothing.
pub proof fn lemma_erase_nothing(d: DocumentView, hit: Seq<bool>)
    requires
        hit.len() == d.strokes.len(),
        forall|i: int| 0 <= i < hit.len() ==> !#[trigger] hit[i],
    ensures
        erased(d, hit) == d,
{
    lemma_kept_none(d.strokes, hit);
}

proof fn lemma_kept_none(strokes: Seq<StrokeRecord>, hit: Seq<bool>)
    requires
        hit.len() == strokes.len(),
        forall|i: int| 0 <= i < hit.len() ==> !#[trigger] hit[i],
    ensures
        kept_strokes(strokes, hit) == strokes,
    decreases strokes.len(),
{
    if strokes.len() > 0 {
        let n = strokes.len();
        let h = hit.take(n - 1);
        assert forall|i: int| 0 <= i < h.len() implies !#[trigger] h[i] by {
            assert(h[i] == hit[i]);
        }
        lemma_kept_none(strokes.drop_last(), h);
        assert(!hit[n - 1]);
        assert(kept_strokes(strokes, hit) =~= strokes);
    }
}

proof fn lemma_kept_index(strokes: Seq<StrokeRecord>, hit: Seq<bool>) -> (idx: Seq<int>)
    requires
        hit.len() == strokes.len(),
    ensures
        idx.len() == kept_strokes(strokes, hit).len(),
        forall|j: int|
            0 <= j < idx.len() ==> 0 <= #[trigger] idx[j] < strokes.len() && !hit[idx[j]]
                && kept_strokes(strokes, hit)[j] == strokes[idx[j]],
        forall|j1: int, j2: int| 0 <= j1 < j2 < idx.len() ==> #[trigger] idx[j1] < #[trigger] idx[j2],
        forall|i: int|
            0 <= i < strokes.len() && !#[trigger] hit[i] ==> exists|j: int|
                0 <= j < idx.len() && #[trigger] idx[j] == i,
    decreases strokes.len(),
{
    if strokes.len() == 0 {
        Seq::empty()
    } else {
        let n = strokes.len();
        let h = hit.take(n - 1);
        let idx0 = lemma_kept_index(strokes.drop_last(), h);
        assert forall|i: int| 0 <= i < n - 1 implies #[trigger] h[i] == hit[i] by {}
        if hit[n - 1] {
            assert forall|i: int| 0 <= i < n && !#[trigger] hit[i] implies exists|j: int|
                0 <= j < idx0.len() && #[trigger] idx0[j] == i by {
                assert(!h[i]);
            }
            idx0
        } else {
            let idx = idx0.push(n - 1);
            assert forall|i: int| 0 <= i < n && !#[trigger] hit[i] implies exists|j: int|
                0 <= j < idx.len() && #[trigger] idx[j] == i by {
                if i == n - 1 {
                    assert(idx[idx0.len() as int] == i);
                } else {
                    assert(!h[i]);
                    let j = choose|j: int| 0 <= j < idx0.len() && #[trigger] idx0[j] == i;
                    assert(idx[j] == i);
                }
            }
            idx
        }
    }
}

proof fn lemma_kept_shorter(strokes: Seq<StrokeRecord>, hit: Seq<bool>, i: int)
    requires
        hit.len() == strokes.len(),
        0 <= i < hit.len(),
        hit[i],
    ensures
        kept_strokes(strokes, hit).len() < strokes.len(),
    decreases strokes.len(),
{
    let n = strokes.len();
    lemma_kept_all(strokes.drop_last(), hit.take(n - 1));
    if i < n - 1 {
        lemma_kept_shorter(strokes.drop_last(), hit.take(n - 1), i);
    }
}

/// Erasing keeps exactly the strokes whose flag is not set, in their order
/// (`idx` lists where each kept stroke was); when some stroke is erased, the
/// redo history and the generated output go and the drawing counts as
/// edited; when no flag is set, nothing changes.
pub proof fn lemma_erase_keeps_exactly_unhit(d: DocumentView, hit: Seq<bool>) -> (idx: Seq<int>)
    requires
        hit.len() == d.strokes.len(),
    ensures
        idx.len() == erased(d, hit).strokes.len(),
        forall|j: int|
            0 <= j < idx.len() ==> 0 <= #[trigger] idx[j] < d.strokes.len() && !hit[idx[j]]
                && erased(d, hit).strokes[j] == d.strokes[idx[j]],
        forall|j1: int, j2: int| 0 <= j1 < j2 < idx.len() ==> #[trigger] idx[j1] < #[trigger] idx[j2],
        forall|i: int|
            0 <= i < d.strokes.len() && !#[trigger] hit[i] ==> exists|j: int|
                0 <= j < idx.len() && #[trigger] idx[j] == i,
        (exists|i: int| 0 <= i < hit.len() && #[trigger] hit[i]) ==> {
            &&& erased(d, hit).redo_stack.len() == 0
            &&& erased(d, hit).generated_text.len() == 0
            &&& erased(d, hit).dirty
        },
        (forall|i: int| 0 <= i < hit.len() ==> !#[trigger] hit[i]) ==> erased(d, hit) == d,
{
    lemma_kept_all(d.strokes, hit);
    if exists|i: int| 0 <= i < hit.len() && #[trigger] hit[i] {
        let i = choose|i: int| 0 <= i < hit.len() && #[trigger] hit[i];
        lemma_kept_shorter(d.strokes, hit, i);
    }
    if forall|i: int| 0 <= i < hit.len() ==> !#[trigger] hit[i] {
        lemma_erase_nothing(d, hit);
    }
    lemma_kept_index(d.strokes, hit)
}

/// Nothing is kept beyond the strokes, and keeping them all means no flag was
/// set.
pub proof fn lemma_kept_all(strokes: Seq<StrokeRecord>, hit: Seq<bool>)
    requires
        hit.len() == strokes.len(),
    ensures
        kept_strokes(strokes, hit).len() <= strokes.len(),
        kept_strokes(strokes, hit).len() == strokes.len() ==> kept_strokes(strokes, hit) == strokes,
    decreases strokes.len(),
{
    if strokes.len() > 0 {
        let n = strokes.len();
        lemma_kept_all(strokes.drop_last(), hit.take(n - 1));
        if kept_strokes(strokes, hit).len() == n {
            assert(kept_strokes(strokes, hit) =~= strokes);
        }
    }
}

} // verus!
