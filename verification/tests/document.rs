use drawafunc::document::{Document, PROJECT_FILE};
use drawafunc::stroke::{project_hash, PointBits, StrokeRecord, FNV_OFFSET};

fn stroke(points: &[(f32, f32)]) -> StrokeRecord {
    StrokeRecord {
        points: points
            .iter()
            .map(|(x, y)| PointBits {
                x: x.to_bits(),
                y: y.to_bits(),
            })
            .collect(),
        color: [23, 26, 31, 255],
        width: 2.0f32.to_bits(),
    }
}

fn first_x(doc: &Document) -> Vec<u32> {
    doc.strokes.iter().map(|s| s.points[0].x).collect()
}

#[test]
fn project_hash_exact_values() {
    assert_eq!(project_hash(&[]), FNV_OFFSET);
    assert_eq!(project_hash(&[stroke(&[])]), 12638153115695167455);
    assert_eq!(
        project_hash(&[stroke(&[(0.0, 0.0), (1.0, 1.0)])]),
        9086461491091783189
    );
    assert_eq!(
        project_hash(&[stroke(&[(1.5, -2.0)]), stroke(&[(0.0, 0.0), (3.0, 4.0)])]),
        2141973714144183402
    );
    // Colour and width take no part.
    let mut other = stroke(&[(0.0, 0.0), (1.0, 1.0)]);
    other.color = [1, 2, 3, 4];
    other.width = 9.0f32.to_bits();
    assert_eq!(project_hash(&[other]), 9086461491091783189);
}

#[test]
fn new_document_is_saved_and_empty() {
    let doc = Document::new();
    assert!(doc.strokes.is_empty());
    assert_eq!(doc.status, "Draw on the canvas, then press Generate.");
    assert_eq!(doc.save_state_label(), "Saved");
}

#[test]
fn undo_then_redo_restores_strokes() {
    let mut doc = Document::new();
    doc.add_stroke(stroke(&[(1.0, 0.0), (2.0, 0.0)]));
    doc.add_stroke(stroke(&[(3.0, 0.0), (4.0, 0.0)]));
    assert_eq!(doc.status, "Object added. Press Generate to refresh output.");
    let before = first_x(&doc);

    doc.undo();
    assert_eq!(doc.strokes.len(), 1);
    assert_eq!(doc.redo_stack.len(), 1);
    assert_eq!(doc.status, "Undo.");

    doc.redo();
    assert_eq!(first_x(&doc), before);
    assert!(doc.redo_stack.is_empty());
    assert_eq!(doc.status, "Redo.");
    assert_eq!(doc.save_state_label(), "Unsaved");
}

#[test]
fn undo_and_redo_on_empty_history_do_nothing() {
    let mut doc = Document::new();
    doc.undo();
    doc.redo();
    assert_eq!(doc.status, "Draw on the canvas, then press Generate.");
    assert!(!doc.dirty);
}

#[test]
fn new_stroke_clears_redo_and_short_strokes_are_ignored() {
    let mut doc = Document::new();
    doc.add_stroke(stroke(&[(1.0, 0.0), (2.0, 0.0)]));
    doc.undo();
    doc.add_stroke(stroke(&[(5.0, 0.0)]));
    assert_eq!(doc.redo_stack.len(), 1);
    assert_eq!(doc.strokes.len(), 0);
    doc.finish_stroke(stroke(&[(5.0, 0.0), (6.0, 1.0)]));
    assert_eq!(doc.strokes.len(), 1);
    assert!(doc.redo_stack.is_empty());
    assert_eq!(doc.status, "Stroke added. Press Generate to refresh output.");
    doc.redo();
    assert_eq!(doc.strokes.len(), 1);
}

#[test]
fn freehand_stroke_collects_points() {
    let mut doc = Document::new();
    doc.push_current_point(PointBits { x: 9, y: 9 });
    assert!(doc.current_stroke.is_none());
    doc.start_stroke([1, 2, 3, 4], 7, PointBits { x: 1, y: 1 });
    doc.push_current_point(PointBits { x: 2, y: 2 });
    let taken = doc.take_current_stroke().unwrap();
    assert!(doc.current_stroke.is_none());
    assert_eq!(taken.points, vec![PointBits { x: 1, y: 1 }, PointBits { x: 2, y: 2 }]);
    assert_eq!(taken.color, [1, 2, 3, 4]);
    assert_eq!(taken.width, 7);
}

#[test]
fn erase_removes_hit_strokes_in_order() {
    let mut doc = Document::new();
    for x in [1.0, 2.0, 3.0] {
        doc.add_stroke(stroke(&[(x, 0.0), (x, 1.0)]));
    }
    doc.undo();
    doc.redo();
    doc.undo();
    assert_eq!(doc.redo_stack.len(), 1);
    doc.set_generated(vec![], "y=1".to_string(), "done".to_string());

    doc.erase_strokes(&[false, false]);
    assert_eq!(doc.generated_text, "y=1");
    assert_eq!(doc.redo_stack.len(), 1);

    doc.erase_strokes(&[true, false]);
    assert_eq!(first_x(&doc), vec![2.0f32.to_bits()]);
    assert!(doc.redo_stack.is_empty());
    assert_eq!(doc.generated_text, "");
    assert_eq!(doc.status, "Erased stroke. Press Generate to refresh output.");
}

#[test]
fn clear_wipes_a_non_empty_canvas() {
    let mut doc = Document::new();
    doc.clear();
    assert_eq!(doc.status, "Draw on the canvas, then press Generate.");
    doc.add_stroke(stroke(&[(1.0, 0.0), (2.0, 0.0)]));
    doc.drag_shape_start = Some(PointBits { x: 0, y: 0 });
    doc.clear();
    assert!(doc.strokes.is_empty());
    assert!(doc.drag_shape_start.is_none());
    assert_eq!(doc.status, "Canvas cleared.");
    assert_eq!(doc.save_state_label(), "Unsaved");
}

#[test]
fn save_and_load_mark_the_drawing_saved() {
    assert_eq!(PROJECT_FILE, "drawafunc_project.json");
    let mut doc = Document::new();
    doc.add_stroke(stroke(&[(1.0, 0.0), (2.0, 0.0)]));
    assert_eq!(doc.save_state_label(), "Unsaved");
    doc.mark_saved();
    assert_eq!(doc.save_state_label(), "Saved");
    assert_eq!(doc.status, "Saved to drawafunc_project.json.");
    assert_eq!(doc.last_saved_hash, project_hash(&doc.strokes));

    doc.save_failed("disk full");
    assert_eq!(doc.status, "Save failed: disk full");

    doc.load_strokes(vec![
        stroke(&[(1.0, 0.0), (2.0, 0.0)]),
        stroke(&[(3.0, 0.0), (4.0, 0.0)]),
    ]);
    assert_eq!(doc.status, "Loaded 2 stroke(s) from drawafunc_project.json.");
    assert_eq!(doc.save_state_label(), "Saved");
    doc.load_failed("missing");
    assert_eq!(doc.status, "Load failed: missing");
    assert_eq!(doc.strokes.len(), 2);
}

#[test]
fn copy_needs_text_that_is_not_white_space() {
    let mut doc = Document::new();
    assert!(!doc.has_output());
    assert_eq!(doc.copy_output(), None);
    assert_eq!(doc.status, "Nothing to copy yet.");
    doc.set_generated(vec![], " \n ".to_string(), "done".to_string());
    assert!(!doc.has_output());
    doc.set_generated(vec![], "y=2x".to_string(), "done".to_string());
    assert!(doc.has_output());
    assert_eq!(doc.copy_output(), Some("y=2x".to_string()));
    assert_eq!(doc.status, "Copied Desmos expressions to clipboard.");
}
