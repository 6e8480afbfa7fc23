use drawafunc::primitives::{bezier_count, line_count, PrimitiveKind};
use drawafunc::settings::{resolve_mode, OutputMode, QualityPreset};
use drawafunc::stroke::PointBits;
use drawafunc::tools::{
    decode_shortcuts, rectangle_points, shape_tool, ShapeTool, ShortcutActions, ShortcutInput,
    Tool,
};

#[test]
fn quality_labels_and_passes() {
    let labels: Vec<&str> = QualityPreset::ALL.iter().map(|q| q.label()).collect();
    assert_eq!(labels, vec!["Rough", "Default", "Smooth", "Precise"]);
    let passes: Vec<usize> = QualityPreset::ALL
        .iter()
        .map(|q| q.smoothing_passes())
        .collect();
    assert_eq!(passes, vec![3, 1, 4, 0]);
}

#[test]
fn output_mode_labels() {
    let labels: Vec<&str> = OutputMode::ALL.iter().map(|m| m.label()).collect();
    assert_eq!(
        labels,
        vec![
            "Auto",
            "Lines",
            "Bezier",
            "Mixed",
            "Experimental polynomial",
            "Experimental exponential"
        ]
    );
}

#[test]
fn auto_mode_follows_quality() {
    assert_eq!(resolve_mode(OutputMode::Auto, QualityPreset::Rough), OutputMode::Lines);
    assert_eq!(resolve_mode(OutputMode::Auto, QualityPreset::Precise), OutputMode::Lines);
    assert_eq!(resolve_mode(OutputMode::Auto, QualityPreset::Default), OutputMode::Bezier);
    assert_eq!(resolve_mode(OutputMode::Auto, QualityPreset::Smooth), OutputMode::Bezier);
    assert_eq!(resolve_mode(OutputMode::Mixed, QualityPreset::Rough), OutputMode::Mixed);
    for quality in QualityPreset::ALL {
        for mode in OutputMode::ALL {
            let once = resolve_mode(mode, quality);
            assert_ne!(once, OutputMode::Auto);
            assert_eq!(resolve_mode(once, quality), once);
        }
    }
}

#[test]
fn shape_tools_map_drawing_tools() {
    assert_eq!(shape_tool(Tool::Line), Some(ShapeTool::Line));
    assert_eq!(shape_tool(Tool::Rectangle), Some(ShapeTool::Rectangle));
    assert_eq!(shape_tool(Tool::Circle), Some(ShapeTool::Circle));
    assert_eq!(shape_tool(Tool::Heart), Some(ShapeTool::Heart));
    assert_eq!(shape_tool(Tool::Star), Some(ShapeTool::Star));
    assert_eq!(shape_tool(Tool::Pencil), None);
    assert_eq!(shape_tool(Tool::Eraser), None);
    assert_eq!(shape_tool(Tool::Pan), None);
}

#[test]
fn rectangle_outline_is_closed() {
    let a = PointBits { x: 1, y: 2 };
    let b = PointBits { x: 3, y: 4 };
    assert_eq!(
        rectangle_points(a, b),
        vec![
            a,
            PointBits { x: 3, y: 2 },
            b,
            PointBits { x: 1, y: 4 },
            a
        ]
    );
}

fn keys() -> ShortcutInput {
    ShortcutInput {
        command: false,
        shift: false,
        z: false,
        y: false,
        s: false,
        o: false,
        g: false,
        c: false,
        delete: false,
    }
}

const NONE: ShortcutActions = ShortcutActions {
    undo: false,
    redo: false,
    save: false,
    load: false,
    generate: false,
    copy: false,
    clear: false,
};

#[test]
fn shortcuts_decode() {
    assert_eq!(decode_shortcuts(keys()), NONE);
    assert_eq!(
        decode_shortcuts(ShortcutInput { command: true, z: true, ..keys() }),
        ShortcutActions { undo: true, ..NONE }
    );
    assert_eq!(
        decode_shortcuts(ShortcutInput { command: true, z: true, shift: true, ..keys() }),
        ShortcutActions { redo: true, ..NONE }
    );
    assert_eq!(
        decode_shortcuts(ShortcutInput { command: true, y: true, ..keys() }),
        ShortcutActions { redo: true, ..NONE }
    );
    assert_eq!(decode_shortcuts(ShortcutInput { z: true, ..keys() }), NONE);
    assert_eq!(
        decode_shortcuts(ShortcutInput { command: true, s: true, ..keys() }),
        ShortcutActions { save: true, ..NONE }
    );
    assert_eq!(
        decode_shortcuts(ShortcutInput { command: true, o: true, ..keys() }),
        ShortcutActions { load: true, ..NONE }
    );
    assert_eq!(
        decode_shortcuts(ShortcutInput { g: true, ..keys() }),
        ShortcutActions { generate: true, ..NONE }
    );
    assert_eq!(
        decode_shortcuts(ShortcutInput { command: true, c: true, ..keys() }),
        ShortcutActions { copy: true, ..NONE }
    );
    assert_eq!(
        decode_shortcuts(ShortcutInput { delete: true, ..keys() }),
        ShortcutActions { clear: true, ..NONE }
    );
}

#[test]
fn primitive_counts_add_up() {
    let kinds = vec![
        PrimitiveKind::Line,
        PrimitiveKind::CubicBezier,
        PrimitiveKind::Line,
        PrimitiveKind::Line,
        PrimitiveKind::CubicBezier,
    ];
    assert_eq!(line_count(&kinds), 3);
    assert_eq!(bezier_count(&kinds), 2);
    assert_eq!(line_count(&[]), 0);
    assert_eq!(line_count(&kinds) + bezier_count(&kinds), kinds.len());
}
