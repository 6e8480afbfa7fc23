use vstd::prelude::*;
use crate::stroke::PointBits;

verus! {

/// The tool that the pointer acts with on the canvas.
#[derive(Clone, Copy, Debug, PartialEq, Eq, Structural)]
pub enum Tool {
    Pencil,
    Line,
    Rectangle,
    Circle,
    Heart,
    Star,
    Eraser,
    Pan,
}

/// A ready-made shape drawn by dragging from one corner to the other.
#[derive(Clone, Copy, Debug, PartialEq, Eq, Structural)]
pub enum ShapeTool {
    Line,
    Rectangle,
    Circle,
    Heart,
    Star,
}

/// The shape a tool draws; freehand, eraser and pan draw none.
pub open spec fn shape_of(tool: Tool) -> Option<ShapeTool> {
    match tool {
        Tool::Line => Some(ShapeTool::Line),
        Tool::Rectangle => Some(ShapeTool::Rectangle),
        Tool::Circle => Some(ShapeTool::Circle),
        Tool::Heart => Some(ShapeTool::Heart),
        Tool::Star => Some(ShapeTool::Star),
        Tool::Pencil | Tool::Eraser | Tool::Pan => None,
    }
}

/// The shape that dragging with `tool` draws, if it draws one.
pub fn shape_tool(tool: Tool) -> (shape: Option<ShapeTool>)
    ensures
        shape == shape_of(tool),
{
    match tool {
        Tool::Line => Some(ShapeTool::Line),
        Tool::Rectangle => Some(ShapeTool::Rectangle),
        Tool::Circle => Some(ShapeTool::Circle),
        Tool::Heart => Some(ShapeTool::Heart),
        Tool::Star => Some(ShapeTool::Star),
        Tool::Pencil | Tool::Eraser | Tool::Pan => None,
    }
}

/// The closed outline of the axis-aligned rectangle with opposite corners
/// `start` and `end`: from `start` along x first, back to `start`.
pub fn rectangle_points(start: PointBits, end: PointBits) -> (points: Vec<PointBits>)
    ensures
        points@ == seq![
            start,
            PointBits { x: end.x, y: start.y },
            end,
            PointBits { x: start.x, y: end.y },
            start,
        ],
{
    let mut points = Vec::new();
    points.push(start);
    points.push(PointBits { x: end.x, y: start.y });
    points.push(end);
    points.push(PointBits { x: start.x, y: end.y });
    points.push(start);
    points
}

/// The keys held or pressed in one frame that shortcuts look at.
#[derive(Clone, Copy, Debug, PartialEq, Eq, Structural)]
pub struct ShortcutInput {
    /// The platform command modifier (Ctrl, or Cmd on macOS) is held.
    pub command: bool,
    pub shift: bool,
    pub z: bool,
    pub y: bool,
    pub s: bool,
    pub o: bool,
    pub g: bool,
    pub c: bool,
    pub delete: bool,
}

/// The editor actions that one frame's shortcuts ask for.
#[derive(Clone, Copy, Debug, PartialEq, Eq, Structural)]
pub struct ShortcutActions {
    pub undo: bool,
    pub redo: bool,
    pub save: bool,
    pub load: bool,
    pub generate: bool,
    pub copy: bool,
    pub clear: bool,
}

/// Decodes the shortcuts: command+Z undoes, command+Y or command+shift+Z
/// redoes, command+S saves, command+O loads, G generates, command+C copies
/// the Desmos text, Delete clears the canvas.
pub fn decode_shortcuts(input: ShortcutInput) -> (actions: ShortcutActions)
    ensures
        actions == (ShortcutActions {
            undo: input.command && input.z && !input.shift,
            redo: input.command && (input.y || (input.z && input.shift)),
            save: input.command && input.s,
            load: input.command && input.o,
            generate: input.g,
            copy: input.command && input.c,
            clear: input.delete,
        }),
{
    ShortcutActions {
        undo: input.command && input.z && !input.shift,
        redo: input.command && (input.y || (input.z && input.shift)),
        save: input.command && input.s,
        load: input.command && input.o,
        generate: input.g,
        copy: input.command && input.c,
        clear: input.delete,
    }
}

} // verus!
