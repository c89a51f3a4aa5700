use botracers::editor::{
    EditorCommand, EditorState, TrackFile, TrackMetadata, DEFAULT_KERB_WIDTH_BITS,
    DEFAULT_TRACK_WIDTH_BITS,
};

fn bits(x: f32, y: f32) -> [u32; 2] {
    [x.to_bits(), y.to_bits()]
}

fn square() -> TrackFile {
    TrackFile {
        metadata: TrackMetadata::default(),
        control_points: vec![bits(0.0, 0.0), bits(10.0, 0.0), bits(10.0, 10.0), bits(0.0, 10.0)],
    }
}

#[test]
fn new_empty_track_has_default_widths() {
    let t = TrackFile::new_empty("Oval");
    assert_eq!(t.metadata.name, "Oval");
    assert_eq!(t.metadata.author, "");
    assert_eq!(f32::from_bits(t.metadata.track_width), 12.0);
    assert_eq!(f32::from_bits(t.metadata.kerb_width), 0.5);
    assert!(t.control_points.is_empty());
    let m = TrackMetadata::default();
    assert_eq!(m.name, "Untitled");
    assert_eq!(m.track_width, DEFAULT_TRACK_WIDTH_BITS);
    assert_eq!(m.kerb_width, DEFAULT_KERB_WIDTH_BITS);
}

#[test]
fn editor_starts_untitled_or_on_the_opened_track() {
    let e = EditorState::new(None);
    assert!(e.file_path.is_none());
    assert_eq!(e.track_file.metadata.name, "Untitled");
    assert!(e.track_file.control_points.is_empty());
    assert!(!e.dirty);
    assert!(e.ui.show_labels && e.ui.show_help && !e.ui.show_curvature);
    assert_eq!(e.ui.selected_point, None);

    let e = EditorState::new(Some(("track.toml".to_string(), square())));
    assert_eq!(e.file_path.as_deref(), Some("track.toml"));
    assert_eq!(e.track_file.control_points.len(), 4);
}

#[test]
fn undo_and_redo_walk_the_history() {
    let mut e = EditorState::new(Some(("t.toml".to_string(), square())));
    assert!(!e.undo());
    assert!(!e.redo());
    assert!(!e.dirty);

    e.push_undo();
    assert!(e.dirty);
    e.track_file.control_points[0] = bits(5.0, 5.0);
    assert!(e.undo());
    assert_eq!(e.track_file.control_points[0], bits(0.0, 0.0));
    assert!(e.redo());
    assert_eq!(e.track_file.control_points[0], bits(5.0, 5.0));
    assert!(!e.redo());
    assert!(e.undo());
    assert!(!e.undo());
    assert_eq!(e.track_file.control_points, square().control_points);
}

#[test]
fn a_new_edit_drops_what_was_undone() {
    let mut e = EditorState::new(Some(("t.toml".to_string(), square())));
    e.push_undo();
    e.track_file.control_points.pop();
    assert!(e.undo());
    e.push_undo();
    assert!(!e.redo());
}

#[test]
fn adding_then_undoing_restores_the_points() {
    let mut e = EditorState::new(Some(("t.toml".to_string(), square())));
    assert!(e.handle_command(EditorCommand::AddPoint(bits(5.0, -3.0), 1)));
    assert_eq!(e.track_file.control_points.len(), 5);
    assert_eq!(e.track_file.control_points[1], bits(5.0, -3.0));
    assert_eq!(e.ui.selected_point, Some(1));
    assert!(e.dirty);
    assert!(e.handle_command(EditorCommand::Undo));
    assert_eq!(e.track_file.control_points, square().control_points);
    assert!(e.handle_command(EditorCommand::Redo));
    assert_eq!(e.track_file.control_points.len(), 5);
}

#[test]
fn deleting_the_last_point_moves_the_selection_back() {
    let mut e = EditorState::new(Some(("t.toml".to_string(), square())));
    e.ui.selected_point = Some(3);
    assert!(e.handle_command(EditorCommand::DeleteSelected));
    assert_eq!(e.track_file.control_points.len(), 3);
    assert_eq!(e.ui.selected_point, Some(2));

    e.ui.selected_point = Some(0);
    assert!(e.handle_command(EditorCommand::DeleteSelected));
    assert_eq!(e.ui.selected_point, Some(0));
    assert_eq!(e.track_file.control_points, vec![bits(10.0, 0.0), bits(10.0, 10.0)]);
}

#[test]
fn a_lone_point_or_no_selection_is_not_deleted() {
    let mut e = EditorState::new(None);
    assert!(!e.handle_command(EditorCommand::DeleteSelected));
    assert!(e.handle_command(EditorCommand::AddPoint(bits(1.0, 1.0), 0)));
    assert!(!e.handle_command(EditorCommand::DeleteSelected));
    assert_eq!(e.track_file.control_points.len(), 1);
}

#[test]
fn grabbing_and_dragging_a_point_is_one_undo_step() {
    let mut e = EditorState::new(Some(("t.toml".to_string(), square())));
    e.ui.ruler_start = Some(bits(1.0, 1.0));
    assert!(e.handle_command(EditorCommand::Grab(Some(2), bits(10.0, 10.0))));
    assert!(e.ui.dragging);
    assert_eq!(e.ui.ruler_start, None);
    assert!(e.handle_command(EditorCommand::DragTo(bits(11.0, 12.0))));
    assert!(e.handle_command(EditorCommand::DragTo(bits(12.0, 14.0))));
    assert_eq!(e.track_file.control_points[2], bits(12.0, 14.0));
    assert!(!e.handle_command(EditorCommand::Release));
    assert!(!e.ui.dragging);
    assert_eq!(e.ui.drag_prev_world, None);
    assert!(!e.handle_command(EditorCommand::DragTo(bits(0.0, 0.0))));
    assert!(e.handle_command(EditorCommand::Undo));
    assert_eq!(e.track_file.control_points, square().control_points);
}

#[test]
fn grabbing_nothing_keeps_the_history() {
    let mut e = EditorState::new(Some(("t.toml".to_string(), square())));
    assert!(e.handle_command(EditorCommand::Grab(None, bits(50.0, 50.0))));
    assert!(!e.ui.dragging);
    assert!(!e.dirty);
    assert!(!e.undo());
}

#[test]
fn width_scale_and_toggles() {
    let mut e = EditorState::new(None);
    assert!(e.handle_command(EditorCommand::Scale(vec![bits(1.0, 1.0)])));
    assert!(e.track_file.control_points.is_empty());
    assert!(!e.dirty);

    assert!(e.handle_command(EditorCommand::SetTrackWidth(12.5f32.to_bits())));
    assert_eq!(f32::from_bits(e.track_file.metadata.track_width), 12.5);
    assert!(e.dirty);
    // The width is not part of the undo history.
    assert!(e.handle_command(EditorCommand::Undo));
    assert_eq!(f32::from_bits(e.track_file.metadata.track_width), 12.5);

    assert!(e.handle_command(EditorCommand::ToggleCurvature));
    assert!(e.ui.show_curvature);
    assert!(e.handle_command(EditorCommand::ToggleLabels));
    assert!(!e.ui.show_labels);
    assert!(!e.handle_command(EditorCommand::ToggleHelp));
    assert!(!e.ui.show_help);
}

#[test]
fn save_open_and_new() {
    let mut e = EditorState::new(None);
    assert!(e.handle_command(EditorCommand::AddPoint(bits(1.0, 1.0), 0)));
    assert!(!e.handle_command(EditorCommand::Saved("a.toml".to_string())));
    assert!(!e.dirty);
    assert_eq!(e.file_path.as_deref(), Some("a.toml"));

    assert!(e.handle_command(EditorCommand::Opened("b.toml".to_string(), square())));
    assert_eq!(e.file_path.as_deref(), Some("b.toml"));
    assert_eq!(e.ui.selected_point, None);
    assert!(!e.undo());

    assert!(e.handle_command(EditorCommand::New));
    assert!(e.file_path.is_none());
    assert!(e.track_file.control_points.is_empty());
    assert!(!e.dirty);
}

#[test]
fn ruler_and_panning_positions() {
    let mut e = EditorState::new(None);
    assert!(!e.handle_command(EditorCommand::RulerStart(bits(1.0, 2.0))));
    assert!(!e.handle_command(EditorCommand::RulerMove(bits(3.0, 4.0))));
    assert_eq!(e.ui.ruler_start, Some(bits(1.0, 2.0)));
    assert_eq!(e.ui.ruler_end, Some(bits(3.0, 4.0)));
    let cam = [1.0f32.to_bits(), 2.0f32.to_bits(), 0.0f32.to_bits()];
    assert!(!e.handle_command(EditorCommand::PanStart(bits(100.0, 200.0), cam)));
    assert_eq!(e.ui.pan_camera_origin, Some(cam));
    assert!(!e.handle_command(EditorCommand::PanEnd));
    assert_eq!(e.ui.pan_origin, None);
    assert_eq!(e.ui.pan_camera_origin, None);
}
