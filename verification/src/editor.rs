//! The track editor's state: the track being edited, the undo and redo
//! history of its control points, and what each key or mouse command does to
//! them. Coordinates and widths are `f32` values held as their bit patterns;
//! the arithmetic on them (nearest point, scaling, width steps) is done by
//! the caller, which hands the results in.
use vstd::prelude::*;

verus! {

/// Bit pattern of the `f32` 12.0, the default track width.
pub const DEFAULT_TRACK_WIDTH_BITS: u32 = 0x4140_0000;

/// Bit pattern of the `f32` 0.5, the default kerb width.
pub const DEFAULT_KERB_WIDTH_BITS: u32 = 0x3F00_0000;

/// Name, author and widths of a track.
pub struct TrackMetadata {
    pub name: String,
    pub author: String,
    /// Bit pattern of the track width in world units.
    pub track_width: u32,
    /// Bit pattern of the kerb width in world units.
    pub kerb_width: u32,
}

impl Default for TrackMetadata {
    /// An untitled track by nobody, with the default widths.
    fn default() -> (r: Self)
        ensures
            r.name@ == "Untitled"@,
            r.author@ == Seq::<char>::empty(),
            r.track_width == DEFAULT_TRACK_WIDTH_BITS,
            r.kerb_width == DEFAULT_KERB_WIDTH_BITS,
    {
        TrackMetadata {
            name: String::from_str("Untitled"),
            author: String::new(),
            track_width: DEFAULT_TRACK_WIDTH_BITS,
            kerb_width: DEFAULT_KERB_WIDTH_BITS,
        }
    }
}

/// A track as stored on disk: its metadata and the control points of its
/// centre line, each `[x, y]`.
pub struct TrackFile {
    pub metadata: TrackMetadata,
    pub control_points: Vec<[u32; 2]>,
}

impl TrackFile {
    /// A track called `name` with no control points and the default widths.
    pub fn new_empty(name: &str) -> (r: Self)
        ensures
            r.metadata.name@ == name@,
            r.metadata.author@ == Seq::<char>::empty(),
            r.metadata.track_width == DEFAULT_TRACK_WIDTH_BITS,
            r.metadata.kerb_width == DEFAULT_KERB_WIDTH_BITS,
            r.control_points@ == Seq::<[u32; 2]>::empty(),
    {
        TrackFile {
            metadata: TrackMetadata {
                name: String::from_str(name),
                author: String::new(),
                track_width: DEFAULT_TRACK_WIDTH_BITS,
                kerb_width: DEFAULT_KERB_WIDTH_BITS,
            },
            control_points: Vec::new(),
        }
    }
}

/// The control points and their edit history: the snapshots taken before
/// each edit (latest last) and those that undoing set aside (latest last).
pub struct History {
    pub points: Seq<[u32; 2]>,
    pub undo: Seq<Seq<[u32; 2]>>,
    pub redo: Seq<Seq<[u32; 2]>>,
}

impl History {
    /// A snapshot of the points is taken before an edit; what was undone
    /// can no longer be redone.
    pub open spec fn pushed(self) -> History {
        History { points: self.points, undo: self.undo.push(self.points), redo: Seq::empty() }
    }

    /// The points are replaced, the history kept.
    pub open spec fn edited(self, points: Seq<[u32; 2]>) -> History {
        History { points: points, undo: self.undo, redo: self.redo }
    }

    /// The latest snapshot comes back and the current points are set aside
    /// for redoing; with no snapshot nothing changes.
    pub open spec fn undone(self) -> History {
        if self.undo.len() == 0 {
            self
        } else {
            History {
                points: self.undo.last(),
                undo: self.undo.drop_last(),
                redo: self.redo.push(self.points),
            }
        }
    }

    /// The latest points set aside come back and the current ones become a
    /// snapshot again; with nothing set aside nothing changes.
    pub open spec fn redone(self) -> History {
        if self.redo.len() == 0 {
            self
        } else {
            History {
                points: self.redo.last(),
                undo: self.undo.push(self.points),
                redo: self.redo.drop_last(),
            }
        }
    }
}

/// The views of a stack of snapshots.
pub open spec fn snapshots(stack: Seq<Vec<[u32; 2]>>) -> Seq<Seq<[u32; 2]>> {
    stack.map_values(|v: Vec<[u32; 2]>| v@)
}

/// Redoing right after an undo brings back exactly what was there before it.
pub proof fn lemma_redo_reverts_undo(h: History)
    requires
        h.undo.len() > 0,
    ensures
        h.undone().redone() == h,
{
    assert(h.undone().redone().undo =~= h.undo);
    assert(h.undone().redone().redo =~= h.redo);
}

/// Undoing an edit brings back the points from before it and the history
/// from before it, with the edited points set aside for redoing.
pub proof fn lemma_undo_reverts_edit(h: History, edited: Seq<[u32; 2]>)
    ensures
        h.pushed().edited(edited).undone().points == h.points,
        h.pushed().edited(edited).undone().undo == h.undo,
        h.pushed().edited(edited).undone().redo == seq![edited],
        h.pushed().edited(edited).undone().redone().points == edited,
{
    assert(h.pushed().edited(edited).undone().undo =~= h.undo);
    assert(h.pushed().edited(edited).undone().redo =~= seq![edited]);
}

/// Undoing right after a redo brings back exactly what was there before it.
pub proof fn lemma_undo_reverts_redo(h: History)
    requires
        h.redo.len() > 0,
    ensures
        h.redone().undone() == h,
{
    assert(h.redone().undone().undo =~= h.undo);
    assert(h.redone().undone().redo =~= h.redo);
}

/// Selection, dragging, ruler, panning and display switches of the editor.
/// Positions are bit patterns of world or window coordinates.
#[derive(Clone, Copy)]
pub struct EditorUi {
    pub selected_point: Option<usize>,
    pub dragging: bool,
    /// Last cursor position in world coordinates while dragging.
    pub drag_prev_world: Option<[u32; 2]>,
    pub ruler_start: Option<[u32; 2]>,
    pub ruler_end: Option<[u32; 2]>,
    /// Cursor position where panning began.
    pub pan_origin: Option<[u32; 2]>,
    /// Camera translation where panning began.
    pub pan_camera_origin: Option<[u32; 3]>,
    pub show_curvature: bool,
    pub show_labels: bool,
    pub show_help: bool,
}

/// The editor: the track, where it is stored, the edit history of its
/// control points, and whether it has unsaved changes.
pub struct EditorState {
    pub track_file: TrackFile,
    pub file_path: Option<String>,
    pub ui: EditorUi,
    /// Snapshots of the control points taken before each edit.
    pub undo_stack: Vec<Vec<[u32; 2]>>,
    /// Snapshots set aside by undoing.
    pub redo_stack: Vec<Vec<[u32; 2]>>,
    pub dirty: bool,
}

/// Nothing selected or being dragged, no ruler, no panning; labels and
/// help shown, curvature hidden.
pub open spec fn initial_ui() -> EditorUi {
    EditorUi {
        selected_point: None,
        dragging: false,
        drag_prev_world: None,
        ruler_start: None,
        ruler_end: None,
        pan_origin: None,
        pan_camera_origin: None,
        show_curvature: false,
        show_labels: true,
        show_help: true,
    }
}

/// A copy of the control points.
fn copy_points(points: &Vec<[u32; 2]>) -> (r: Vec<[u32; 2]>)
    ensures
        r@ == points@,
{
    let mut r: Vec<[u32; 2]> = Vec::new();
    let mut i: usize = 0;
    while i < points.len()
        invariant
            i <= points.len(),
            r@ == points@.subrange(0, i as int),
        decreases points.len() - i,
    {
        r.push(points[i]);
        i = i + 1;
        assert(r@ =~= points@.subrange(0, i as int));
    }
    assert(r@ =~= points@);
    r
}

impl EditorState {
    /// The control points and their undo and redo history.
    pub open spec fn history(&self) -> History {
        History {
            points: self.track_file.control_points@,
            undo: snapshots(self.undo_stack@),
            redo: snapshots(self.redo_stack@),
        }
    }

    /// The editor on the track that was opened from `opened.0`, or on an
    /// empty untitled track stored nowhere yet when nothing was opened.
    pub fn new(opened: Option<(String, TrackFile)>) -> (r: Self)
        ensures
            r.ui == initial_ui(),
            !r.dirty,
            r.history().undo.len() == 0,
            r.history().redo.len() == 0,
            match opened {
                Some((path, track)) => r.file_path == Some(path) && r.track_file == track,
                None => {
                    &&& r.file_path is None
                    &&& r.track_file.metadata.name@ == "Untitled"@
                    &&& r.track_file.metadata.author@ == Seq::<char>::empty()
                    &&& r.track_file.metadata.track_width == DEFAULT_TRACK_WIDTH_BITS
                    &&& r.track_file.metadata.kerb_width == DEFAULT_KERB_WIDTH_BITS
                    &&& r.track_file.control_points@ == Seq::<[u32; 2]>::empty()
                },
            },
    {
        let (track_file, file_path) = match opened {
            Some((path, track)) => (track, Some(path)),
            None => (TrackFile::new_empty("Untitled"), None),
        };
        let r = EditorState {
            track_file,
            file_path,
            ui: EditorUi {
                selected_point: None,
                dragging: false,
                drag_prev_world: None,
                ruler_start: None,
                ruler_end: None,
                pan_origin: None,
                pan_camera_origin: None,
                show_curvature: false,
                show_labels: true,
                show_help: true,
            },
            undo_stack: Vec::new(),
            redo_stack: Vec::new(),
            dirty: false,
        };
        assert(r.history().undo =~= Seq::<Seq<[u32; 2]>>::empty());
        assert(r.history().redo =~= Seq::<Seq<[u32; 2]>>::empty());
        r
    }

    /// Takes a snapshot of the control points before an edit. The redo
    /// history is dropped and the track marked unsaved.
    pub fn push_undo(&mut self)
        ensures
            final(self).history() == old(self).history().pushed(),
            final(self).dirty,
            final(self).ui == old(self).ui,
            final(self).file_path == old(self).file_path,
            final(self).track_file == old(self).track_file,
    {
        let snapshot = copy_points(&self.track_file.control_points);
        self.undo_stack.push(snapshot);
        self.redo_stack.clear();
        self.dirty = true;
        assert(snapshots(self.undo_stack@) =~= snapshots(old(self).undo_stack@).push(
            old(self).track_file.control_points@,
        ));
        assert(snapshots(self.redo_stack@) =~= Seq::<Seq<[u32; 2]>>::empty());
    }

    /// Brings back the latest snapshot, setting the current points aside
    /// for redoing. Returns whether there was a snapshot; the track is
    /// marked unsaved when there was.
    pub fn undo(&mut self) -> (r: bool)
        ensures
            r == (old(self).history().undo.len() > 0),
            final(self).history() == old(self).history().undone(),
            final(self).dirty == (old(self).dirty || r),
            final(self).ui == old(self).ui,
            final(self).file_path == old(self).file_path,
            final(self).track_file.metadata == old(self).track_file.metadata,
    {
        match self.undo_stack.pop() {
            Some(prev) => {
                let current = copy_points(&self.track_file.control_points);
                self.redo_stack.push(current);
                self.track_file.control_points = prev;
                self.dirty = true;
                assert(snapshots(self.undo_stack@) =~= snapshots(old(self).undo_stack@).drop_last());
                assert(snapshots(self.redo_stack@) =~= snapshots(old(self).redo_stack@).push(
                    old(self).track_file.control_points@,
                ));
                true
            },
            None => false,
        }
    }

    /// Brings back the latest points set aside by undoing, taking a
    /// snapshot of the current ones. Returns whether there were any; the
    /// track is marked unsaved when there were.
    pub fn redo(&mut self) -> (r: bool)
        ensures
            r == (old(self).history().redo.len() > 0),
            final(self).history() == old(self).history().redone(),
            final(self).dirty == (old(self).dirty || r),
            final(self).ui == old(self).ui,
            final(self).file_path == old(self).file_path,
            final(self).track_file.metadata == old(self).track_file.metadata,
    {
        match self.redo_stack.pop() {
            Some(next) => {
                let current = copy_points(&self.track_file.control_points);
                self.undo_stack.push(current);
                self.track_file.control_points = next;
                self.dirty = true;
                assert(snapshots(self.redo_stack@) =~= snapshots(old(self).redo_stack@).drop_last());
                assert(snapshots(self.undo_stack@) =~= snapshots(old(self).undo_stack@).push(
                    old(self).track_file.control_points@,
                ));
                true
            },
            None => false,
        }
    }
}

/// What the player asked of the editor, with what the caller worked out for
/// it from the cursor and the camera.
pub enum EditorCommand {
    /// Ctrl+Z.
    Undo,
    /// Ctrl+Shift+Z or Ctrl+Y.
    Redo,
    /// The track was written to this path.
    Saved(String),
    /// This track was read from this path.
    Opened(String, TrackFile),
    /// Ctrl+N.
    New,
    /// A: a point at the cursor, to be inserted at the index chosen for it.
    AddPoint([u32; 2], usize),
    /// Delete or Backspace.
    DeleteSelected,
    /// `[` or `]`: the track width after the step.
    SetTrackWidth(u32),
    /// `-` or `=`: the control points scaled about their centroid.
    Scale(Vec<[u32; 2]>),
    /// C.
    ToggleCurvature,
    /// L.
    ToggleLabels,
    /// H.
    ToggleHelp,
    /// Left button pressed: the control point close enough to the cursor,
    /// if any, and the cursor in world coordinates.
    Grab(Option<usize>, [u32; 2]),
    /// Left button held with the cursor at this world position.
    DragTo([u32; 2]),
    /// Left button released.
    Release,
    /// Shift and left button pressed at this world position.
    RulerStart([u32; 2]),
    /// Shift and left button held at this world position.
    RulerMove([u32; 2]),
    /// Right button pressed: the cursor in the window and the camera's
    /// translation.
    PanStart([u32; 2], [u32; 3]),
    /// Right button released.
    PanEnd,
}

/// Whether `cmd` can be carried out on `s`: a point is inserted at most at
/// the end, and the point that is deleted or dragged exists.
pub open spec fn command_fits(s: &EditorState, cmd: &EditorCommand) -> bool {
    let n = s.track_file.control_points.len();
    match cmd {
        EditorCommand::AddPoint(_, i) => *i <= n,
        EditorCommand::DeleteSelected => match s.ui.selected_point {
            Some(i) => n > 1 ==> i < n,
            None => true,
        },
        EditorCommand::DragTo(_) => match s.ui.selected_point {
            Some(i) => s.ui.dragging ==> i < n,
            None => true,
        },
        _ => true,
    }
}

impl EditorState {
    /// Carries out one command. Returns whether the track's visuals must be
    /// rebuilt.
    pub fn handle_command(&mut self, cmd: EditorCommand) -> (rebuild: bool)
        requires
            command_fits(old(self), &cmd),
        ensures
            match cmd {
                EditorCommand::Undo => {
                    &&& rebuild == (old(self).history().undo.len() > 0)
                    &&& final(self).history() == old(self).history().undone()
                    &&& final(self).dirty == (old(self).dirty || rebuild)
                    &&& final(self).ui == old(self).ui
                    &&& final(self).file_path == old(self).file_path
                    &&& final(self).track_file.metadata == old(self).track_file.metadata
                },
                EditorCommand::Redo => {
                    &&& rebuild == (old(self).history().redo.len() > 0)
                    &&& final(self).history() == old(self).history().redone()
                    &&& final(self).dirty == (old(self).dirty || rebuild)
                    &&& final(self).ui == old(self).ui
                    &&& final(self).file_path == old(self).file_path
                    &&& final(self).track_file.metadata == old(self).track_file.metadata
                },
                EditorCommand::Saved(path) => {
                    &&& !rebuild
                    &&& final(self).file_path == Some(path)
                    &&& !final(self).dirty
                    &&& final(self).track_file == old(self).track_file
                    &&& final(self).history() == old(self).history()
                    &&& final(self).ui == old(self).ui
                },
                EditorCommand::Opened(path, track) => {
                    &&& rebuild
                    &&& final(self).file_path == Some(path)
                    &&& final(self).track_file == track
                    &&& final(self).history().undo.len() == 0
                    &&& final(self).history().redo.len() == 0
                    &&& !final(self).dirty
                    &&& final(self).ui == (EditorUi { selected_point: None, ..old(self).ui })
                },
                EditorCommand::New => {
                    &&& rebuild
                    &&& final(self).file_path is None
                    &&& final(self).track_file.metadata.name@ == "Untitled"@
                    &&& final(self).track_file.metadata.author@ == Seq::<char>::empty()
                    &&& final(self).track_file.metadata.track_width == DEFAULT_TRACK_WIDTH_BITS
                    &&& final(self).track_file.metadata.kerb_width == DEFAULT_KERB_WIDTH_BITS
                    &&& final(self).history().points == Seq::<[u32; 2]>::empty()
                    &&& final(self).history().undo.len() == 0
                    &&& final(self).history().redo.len() == 0
                    &&& !final(self).dirty
                    &&& final(self).ui == (EditorUi { selected_point: None, ..old(self).ui })
                },
                EditorCommand::AddPoint(p, i) => {
                    &&& rebuild
                    &&& final(self).history() == old(self).history().pushed().edited(
                        old(self).history().points.insert(i as int, p),
                    )
                    &&& final(self).dirty
                    &&& final(self).ui == (EditorUi { selected_point: Some(i), ..old(self).ui })
                    &&& final(self).file_path == old(self).file_path
                    &&& final(self).track_file.metadata == old(self).track_file.metadata
                },
                EditorCommand::DeleteSelected => {
                    let n = old(self).track_file.control_points.len();
                    match old(self).ui.selected_point {
                        Some(i) if n > 1 => {
                            &&& rebuild
                            &&& final(self).history() == old(self).history().pushed().edited(
                                old(self).history().points.remove(i as int),
                            )
                            &&& final(self).dirty
                            &&& final(self).ui == (EditorUi {
                                selected_point: Some(if i + 1 >= n { (n - 2) as usize } else { i }),
                                ..old(self).ui
                            })
                            &&& final(self).file_path == old(self).file_path
                            &&& final(self).track_file.metadata == old(self).track_file.metadata
                        },
                        _ => !rebuild && *final(self) == *old(self),
                    }
                },
                EditorCommand::SetTrackWidth(w) => {
                    &&& rebuild
                    &&& final(self).history() == old(self).history().pushed()
                    &&& final(self).dirty
                    &&& final(self).track_file.metadata.track_width == w
                    &&& final(self).track_file.metadata.kerb_width == old(self).track_file.metadata.kerb_width
                    &&& final(self).track_file.metadata.name == old(self).track_file.metadata.name
                    &&& final(self).track_file.metadata.author == old(self).track_file.metadata.author
                    &&& final(self).ui == old(self).ui
                    &&& final(self).file_path == old(self).file_path
                },
                EditorCommand::Scale(scaled) => {
                    &&& rebuild
                    &&& if old(self).history().points.len() == 0 {
                        *final(self) == *old(self)
                    } else {
                        &&& final(self).history() == old(self).history().pushed().edited(scaled@)
                        &&& final(self).dirty
                        &&& final(self).ui == old(self).ui
                        &&& final(self).file_path == old(self).file_path
                        &&& final(self).track_file.metadata == old(self).track_file.metadata
                    }
                },
                EditorCommand::ToggleCurvature => {
                    &&& rebuild
                    &&& final(self).ui == (EditorUi { show_curvature: !old(self).ui.show_curvature, ..old(self).ui })
                    &&& final(self).track_file == old(self).track_file
                    &&& final(self).history() == old(self).history()
                    &&& final(self).dirty == old(self).dirty
                    &&& final(self).file_path == old(self).file_path
                },
                EditorCommand::ToggleLabels => {
                    &&& rebuild
                    &&& final(self).ui == (EditorUi { show_labels: !old(self).ui.show_labels, ..old(self).ui })
                    &&& final(self).track_file == old(self).track_file
                    &&& final(self).history() == old(self).history()
                    &&& final(self).dirty == old(self).dirty
                    &&& final(self).file_path == old(self).file_path
                },
                EditorCommand::ToggleHelp => {
                    &&& !rebuild
                    &&& final(self).ui == (EditorUi { show_help: !old(self).ui.show_help, ..old(self).ui })
                    &&& final(self).track_file == old(self).track_file
                    &&& final(self).history() == old(self).history()
                    &&& final(self).dirty == old(self).dirty
                    &&& final(self).file_path == old(self).file_path
                },
                EditorCommand::Grab(nearest, at) => {
                    &&& rebuild
                    &&& final(self).ui.selected_point == nearest
                    &&& final(self).ui.ruler_start is None
                    &&& final(self).ui.ruler_end is None
                    &&& final(self).ui.pan_origin == old(self).ui.pan_origin
                    &&& final(self).ui.pan_camera_origin == old(self).ui.pan_camera_origin
                    &&& final(self).ui.show_curvature == old(self).ui.show_curvature
                    &&& final(self).ui.show_labels == old(self).ui.show_labels
                    &&& final(self).ui.show_help == old(self).ui.show_help
                    &&& final(self).file_path == old(self).file_path
                    &&& final(self).track_file == old(self).track_file
                    &&& if nearest is Some {
                        &&& final(self).ui.dragging
                        &&& final(self).ui.drag_prev_world == Some(at)
                        &&& final(self).history() == old(self).history().pushed()
                        &&& final(self).dirty
                    } else {
                        &&& final(self).ui.dragging == old(self).ui.dragging
                        &&& final(self).ui.drag_prev_world == old(self).ui.drag_prev_world
                        &&& final(self).history() == old(self).history()
                        &&& final(self).dirty == old(self).dirty
                    }
                },
                EditorCommand::DragTo(at) => {
                    match old(self).ui.selected_point {
                        Some(i) if old(self).ui.dragging => {
                            &&& rebuild
                            &&& final(self).history() == old(self).history().edited(
                                old(self).history().points.update(i as int, at),
                            )
                            &&& final(self).dirty
                            &&& final(self).ui == (EditorUi { drag_prev_world: Some(at), ..old(self).ui })
                            &&& final(self).file_path == old(self).file_path
                            &&& final(self).track_file.metadata == old(self).track_file.metadata
                        },
                        _ => !rebuild && *final(self) == *old(self),
                    }
                },
                EditorCommand::Release => {
                    &&& !rebuild
                    &&& final(self).ui == (EditorUi { dragging: false, drag_prev_world: None, ..old(self).ui })
                    &&& final(self).track_file == old(self).track_file
                    &&& final(self).history() == old(self).history()
                    &&& final(self).dirty == old(self).dirty
                    &&& final(self).file_path == old(self).file_path
                },
                EditorCommand::RulerStart(at) => {
                    &&& !rebuild
                    &&& final(self).ui == (EditorUi { ruler_start: Some(at), ruler_end: Some(at), ..old(self).ui })
                    &&& final(self).track_file == old(self).track_file
                    &&& final(self).history() == old(self).history()
                    &&& final(self).dirty == old(self).dirty
                    &&& final(self).file_path == old(self).file_path
                },
                EditorCommand::RulerMove(at) => {
                    &&& !rebuild
                    &&& final(self).ui == (EditorUi { ruler_end: Some(at), ..old(self).ui })
                    &&& final(self).track_file == old(self).track_file
                    &&& final(self).history() == old(self).history()
                    &&& final(self).dirty == old(self).dirty
                    &&& final(self).file_path == old(self).file_path
                },
                EditorCommand::PanStart(cursor, camera) => {
                    &&& !rebuild
                    &&& final(self).ui == (EditorUi {
                        pan_origin: Some(cursor),
                        pan_camera_origin: Some(camera),
                        ..old(self).ui
                    })
                    &&& final(self).track_file == old(self).track_file
                    &&& final(self).history() == old(self).history()
                    &&& final(self).dirty == old(self).dirty
                    &&& final(self).file_path == old(self).file_path
                },
                EditorCommand::PanEnd => {
                    &&& !rebuild
                    &&& final(self).ui == (EditorUi { pan_origin: None, pan_camera_origin: None, ..old(self).ui })
                    &&& final(self).track_file == old(self).track_file
                    &&& final(self).history() == old(self).history()
                    &&& final(self).dirty == old(self).dirty
                    &&& final(self).file_path == old(self).file_path
                },
            },
    {
        match cmd {
            EditorCommand::Undo => self.undo(),
            EditorCommand::Redo => self.redo(),
            EditorCommand::Saved(path) => {
                self.file_path = Some(path);
                self.dirty = false;
                false
            },
            EditorCommand::Opened(path, track) => {
                self.track_file = track;
                self.file_path = Some(path);
                self.ui.selected_point = None;
                self.undo_stack.clear();
                self.redo_stack.clear();
                self.dirty = false;
                assert(snapshots(self.undo_stack@) =~= Seq::<Seq<[u32; 2]>>::empty());
                assert(snapshots(self.redo_stack@) =~= Seq::<Seq<[u32; 2]>>::empty());
                true
            },
            EditorCommand::New => {
                self.track_file = TrackFile::new_empty("Untitled");
                self.file_path = None;
                self.ui.selected_point = None;
                self.undo_stack.clear();
                self.redo_stack.clear();
                self.dirty = false;
                assert(snapshots(self.undo_stack@) =~= Seq::<Seq<[u32; 2]>>::empty());
                assert(snapshots(self.redo_stack@) =~= Seq::<Seq<[u32; 2]>>::empty());
                true
            },
            EditorCommand::AddPoint(p, i) => {
                self.push_undo();
                self.track_file.control_points.insert(i, p);
                self.ui.selected_point = Some(i);
                true
            },
            EditorCommand::DeleteSelected => {
                match self.ui.selected_point {
                    Some(idx) => {
                        if self.track_file.control_points.len() > 1 {
                            self.push_undo();
                            self.track_file.control_points.remove(idx);
                            if idx >= self.track_file.control_points.len() {
                                self.ui.selected_point = Some(self.track_file.control_points.len() - 1);
                            }
                            true
                        } else {
                            false
                        }
                    },
                    None => false,
                }
            },
            EditorCommand::SetTrackWidth(w) => {
                self.push_undo();
                self.track_file.metadata.track_width = w;
                true
            },
            EditorCommand::Scale(scaled) => {
                if self.track_file.control_points.len() > 0 {
                    self.push_undo();
                    self.track_file.control_points = scaled;
                }
                true
            },
            EditorCommand::ToggleCurvature => {
                self.ui.show_curvature = !self.ui.show_curvature;
                true
            },
            EditorCommand::ToggleLabels => {
                self.ui.show_labels = !self.ui.show_labels;
                true
            },
            EditorCommand::ToggleHelp => {
                self.ui.show_help = !self.ui.show_help;
                false
            },
            EditorCommand::Grab(nearest, at) => {
                self.ui.ruler_start = None;
                self.ui.ruler_end = None;
                self.ui.selected_point = nearest;
                if nearest.is_some() {
                    self.ui.dragging = true;
                    self.ui.drag_prev_world = Some(at);
                    self.push_undo();
                }
                true
            },
            EditorCommand::DragTo(at) => {
                if self.ui.dragging {
                    match self.ui.selected_point {
                        Some(idx) => {
                            self.track_file.control_points.set(idx, at);
                            self.ui.drag_prev_world = Some(at);
                            self.dirty = true;
                            true
                        },
                        None => false,
                    }
                } else {
                    false
                }
            },
            EditorCommand::Release => {
                self.ui.dragging = false;
                self.ui.drag_prev_world = None;
                false
            },
            EditorCommand::RulerStart(at) => {
                self.ui.ruler_start = Some(at);
                self.ui.ruler_end = Some(at);
                false
            },
            EditorCommand::RulerMove(at) => {
                self.ui.ruler_end = Some(at);
                false
            },
            EditorCommand::PanStart(cursor, camera) => {
                self.ui.pan_origin = Some(cursor);
                self.ui.pan_camera_origin = Some(camera);
                false
            },
            EditorCommand::PanEnd => {
                self.ui.pan_origin = None;
                self.ui.pan_camera_origin = None;
                false
            },
        }
    }
}

} // verus!
