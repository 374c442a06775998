//! The track editor's decisions, frame by frame: which pending changes lead to which work, and
//! how the unsaved-changes confirmation proceeds. The caller does the work (saving, loading,
//! sending to the renderer) and reports back.
use vstd::prelude::*;

verus! {

pub const CHANGE_DIRECTORY: u32 = 1;

pub const CHANGE_MODEL_SETTINGS: u32 = 2;

pub const CHANGE_LOAD_MODELS: u32 = 4;

pub const CHANGE_MASKS: u32 = 8;

pub const CHANGE_OFFSETS: u32 = 16;

pub const CHANGE_UPDATE_MODEL: u32 = 32;

pub const CHANGE_RENDER: u32 = 64;

pub const CHANGE_CLEAR_IMAGE: u32 = 128;

pub const CHANGE_REDRAW: u32 = 256;

/// What loading a track changes: everything but the model update, render and redraw that follow.
pub const CHANGE_LOAD_TRACK: u32 = 159;

/// What switching to another track of the same file changes.
pub const CHANGE_SUB_TRACK: u32 = 14;

/// A set of pending changes, as bits.
#[derive(Clone, Copy, Debug, PartialEq, Eq, Structural)]
pub struct Changes(pub u32);

impl Changes {
    /// Whether every change of `other` is pending.
    pub open spec fn has(self, other: u32) -> bool {
        self.0 & other == other
    }

    pub fn empty() -> (r: Changes)
        ensures
            r.0 == 0,
    {
        Changes(0)
    }

    pub fn contains(&self, other: u32) -> (r: bool)
        ensures
            r == self.has(other),
    {
        self.0 & other == other
    }

    pub fn insert(&mut self, other: u32)
        ensures
            final(self).0 == old(self).0 | other,
    {
        self.0 = self.0 | other;
    }

    pub fn is_empty(&self) -> (r: bool)
        ensures
            r == (self.0 == 0),
    {
        self.0 == 0
    }

    pub fn clear(&mut self)
        ensures
            final(self).0 == 0,
    {
        self.0 = 0;
    }
}

/// What the user asked of the editor's menu.
#[derive(Debug, PartialEq, Eq)]
pub enum Action {
    Open(String),
    Save,
    Export,
    ChangeTrack(usize),
}

/// Where the editor stands on unsaved changes.
#[derive(Debug, PartialEq, Eq)]
pub enum SaveStatus {
    Changed,
    ConfirmingOpen(String),
    SaveAndOpen(String),
    Open(String),
    ConfirmingClose,
    SaveAndClose,
    Close,
}

/// The answer to the save confirmation.
#[derive(Clone, Copy, Debug, PartialEq, Eq, Structural)]
pub enum Choice {
    NoSave,
    Save,
    Cancel,
}

/// A tab of the editor's side panel.
#[derive(Clone, Copy, Debug, PartialEq, Eq, Structural)]
pub enum SidePanelTab {
    Lights,
    Offsets,
    MetalSupports,
    Render,
    Sprites,
}

/// What the tracks panel changed this frame.
#[derive(Clone, Copy, Debug, PartialEq, Eq, Structural)]
pub struct TracksPanelChanged {
    pub model_settings: bool,
    pub models: bool,
    pub masks: bool,
    pub redraw: bool,
}

/// What the render thread tells the editor.
#[derive(Debug, PartialEq, Eq)]
pub enum TrackEditorMessage {
    /// A new image is ready.
    NewFrame,
    /// Rendering failed, for these reasons.
    Error(Vec<String>),
}

/// Whether any message of a batch brought a new image, and the errors they reported, in order.
pub open spec fn messages_outcome(messages: Seq<TrackEditorMessage>) -> (bool, Seq<String>)
    decreases messages.len(),
{
    if messages.len() == 0 {
        (false, Seq::empty())
    } else {
        let (frame, errors) = messages_outcome(messages.drop_last());
        match messages.last() {
            TrackEditorMessage::NewFrame => (true, errors),
            TrackEditorMessage::Error(e) => (frame, errors + e@),
        }
    }
}

/// Appends copies of `more` to `errors`.
fn push_strings(errors: &mut Vec<String>, more: &Vec<String>)
    ensures
        final(errors)@ == old(errors)@ + more@,
{
    let mut i: usize = 0;
    while i < more.len()
        invariant
            i <= more@.len(),
            errors@ == old(errors)@ + more@.take(i as int),
        decreases more@.len() - i,
    {
        errors.push(more[i].clone());
        i = i + 1;
        assert(errors@ =~= old(errors)@ + more@.take(i as int));
    }
    assert(more@.take(more@.len() as int) =~= more@);
}

/// Takes the messages of the render thread, in order: whether one of them brought a new image;
/// the errors they report are appended to `errors`.
pub fn take_messages(messages: &Vec<TrackEditorMessage>, errors: &mut Vec<String>) -> (r: bool)
    ensures
        r == messages_outcome(messages@).0,
        final(errors)@ == old(errors)@ + messages_outcome(messages@).1,
{
    let mut fetch_frame = false;
    let mut i: usize = 0;
    while i < messages.len()
        invariant
            i <= messages@.len(),
            fetch_frame == messages_outcome(messages@.take(i as int)).0,
            errors@ == old(errors)@ + messages_outcome(messages@.take(i as int)).1,
        decreases messages@.len() - i,
    {
        assert(messages@.take(i + 1).drop_last() =~= messages@.take(i as int));
        let ghost before = errors@;
        match &messages[i] {
            TrackEditorMessage::NewFrame => fetch_frame = true,
            TrackEditorMessage::Error(e) => push_strings(errors, e),
        }
        i = i + 1;
        assert(errors@ =~= old(errors)@ + messages_outcome(messages@.take(i as int)).1);
    }
    assert(messages@.take(messages@.len() as int) =~= messages@);
    fetch_frame
}

/// Export options of the editor.
#[derive(Clone, Copy, Debug, PartialEq, Eq, Structural)]
pub struct ExportSettings {
    pub export_enabled: bool,
    pub skip_empty_sprites: bool,
    pub build_enabled: bool,
    pub build: bool,
}

impl Default for ExportSettings {
    /// Nothing enabled.
    fn default() -> (r: ExportSettings)
        ensures
            !r.export_enabled && !r.skip_empty_sprites && !r.build_enabled && !r.build,
    {
        ExportSettings { export_enabled: false, skip_empty_sprites: false, build_enabled: false, build: false }
    }
}

/// The editor's state between frames.
pub struct EditorState {
    pub changes: Changes,
    pub action: Option<Action>,
    pub save_status: Option<SaveStatus>,
    pub track_index: usize,
}

/// The work a frame asks of the caller, before the renderer is told of the changes.
#[derive(Debug, PartialEq, Eq)]
pub struct FramePlan {
    pub save: bool,
    pub open: Option<String>,
    pub export: bool,
    pub close: bool,
}

/// What the renderer and the viewport are asked to do for the pending changes.
#[derive(Clone, Copy, Debug, PartialEq, Eq, Structural)]
pub struct RenderPlan {
    pub set_directory: bool,
    pub update_model_settings: bool,
    pub load_models: bool,
    pub load_masks: bool,
    pub update_offsets: bool,
    pub update_model: bool,
    pub render: bool,
    pub clear_image: bool,
    pub redraw: bool,
}

/// What the renderer and the viewport are asked to do for the changes `c`: any change to what
/// is drawn updates the model, and a model update renders.
pub open spec fn spec_render_plan(c: Changes) -> RenderPlan {
    let update_model = c.has(CHANGE_MODEL_SETTINGS) || c.has(CHANGE_LOAD_MODELS) || c.has(CHANGE_MASKS) || c.has(
        CHANGE_OFFSETS,
    ) || c.has(CHANGE_UPDATE_MODEL);
    RenderPlan {
        set_directory: c.has(CHANGE_DIRECTORY),
        update_model_settings: c.has(CHANGE_MODEL_SETTINGS),
        load_models: c.has(CHANGE_LOAD_MODELS),
        load_masks: c.has(CHANGE_MASKS),
        update_offsets: c.has(CHANGE_OFFSETS),
        update_model,
        render: update_model || c.has(CHANGE_RENDER),
        clear_image: c.has(CHANGE_CLEAR_IMAGE),
        redraw: c.has(CHANGE_REDRAW),
    }
}

/// The changes after a new frame and a file reload were reported.
pub open spec fn changes_after_events(c: u32, new_frame: bool, reload_models: bool) -> u32 {
    let c = if new_frame {
        c | CHANGE_REDRAW
    } else {
        c
    };
    if reload_models {
        c | CHANGE_LOAD_MODELS
    } else {
        c
    }
}

impl EditorState {
    /// A state with a freshly loaded track: everything is to be loaded and drawn.
    pub fn new() -> (r: EditorState)
        ensures
            r.changes.0 == CHANGE_LOAD_TRACK,
            r.action is None,
            r.save_status is None,
            r.track_index == 0,
    {
        EditorState {
            changes: Changes(CHANGE_LOAD_TRACK),
            action: None,
            save_status: None,
            track_index: 0,
        }
    }

    /// Takes the frame's events and the pending action, and says what the caller does next.
    /// `new_frame`: the renderer delivered an image; `reload_models`: model files changed on disk.
    pub fn begin_frame(&mut self, new_frame: bool, reload_models: bool) -> (r: FramePlan)
        ensures
            ({
                let c0 = changes_after_events(old(self).changes.0, new_frame, reload_models);
                let c1 = match old(self).action {
                    Some(Action::ChangeTrack(_)) => c0 | CHANGE_SUB_TRACK,
                    _ => c0,
                };
                let status0 = match old(self).action {
                    Some(Action::Open(p)) => if old(self).save_status == Some(SaveStatus::Changed) {
                        Some(SaveStatus::ConfirmingOpen(p))
                    } else {
                        old(self).save_status
                    },
                    _ => old(self).save_status,
                };
                let open0 = match old(self).action {
                    Some(Action::Open(p)) => if old(self).save_status == Some(SaveStatus::Changed) {
                        None
                    } else {
                        Some(p)
                    },
                    _ => None,
                };
                let status1 = if c1 != 0 && status0 is None {
                    Some(SaveStatus::Changed)
                } else {
                    status0
                };
                let save0 = old(self).action == Some(Action::Save);
                &&& final(self).changes.0 == c1
                &&& final(self).action is None
                &&& final(self).track_index == match old(self).action {
                    Some(Action::ChangeTrack(i)) => i,
                    _ => old(self).track_index,
                }
                &&& r.export == (old(self).action == Some(Action::Export))
                &&& match status1 {
                    Some(SaveStatus::SaveAndOpen(p)) => {
                        &&& r.save && r.open == Some(p) && !r.close
                        &&& final(self).save_status is None
                    },
                    Some(SaveStatus::Open(p)) => {
                        &&& r.save == save0 && r.open == Some(p) && !r.close
                        &&& final(self).save_status is None
                    },
                    Some(SaveStatus::SaveAndClose) => {
                        &&& r.save && r.open == open0 && r.close
                        &&& final(self).save_status is None
                    },
                    Some(SaveStatus::Close) => {
                        &&& r.save == save0 && r.open == open0 && r.close
                        &&& final(self).save_status is None
                    },
                    _ => {
                        &&& r.save == save0 && r.open == open0 && !r.close
                        &&& final(self).save_status == status1
                    },
                }
            }),
    {
        if new_frame {
            self.changes.insert(CHANGE_REDRAW);
        }
        if reload_models {
            self.changes.insert(CHANGE_LOAD_MODELS);
        }
        let mut save = false;
        let mut open: Option<String> = None;
        let mut export = false;
        let mut close = false;
        match self.action.take() {
            Some(Action::Open(file_path)) => {
                if matches!(self.save_status, Some(SaveStatus::Changed)) {
                    self.save_status = Some(SaveStatus::ConfirmingOpen(file_path));
                } else {
                    open = Some(file_path);
                }
            },
            Some(Action::Save) => save = true,
            Some(Action::Export) => export = true,
            Some(Action::ChangeTrack(index)) => {
                self.track_index = index;
                self.changes.insert(CHANGE_SUB_TRACK);
            },
            None => {},
        }
        if !self.changes.is_empty() && self.save_status.is_none() {
            self.save_status = Some(SaveStatus::Changed);
        }
        match self.save_status.take() {
            Some(SaveStatus::SaveAndOpen(file_path)) => {
                save = true;
                open = Some(file_path);
            },
            Some(SaveStatus::Open(file_path)) => {
                open = Some(file_path);
            },
            Some(SaveStatus::SaveAndClose) => {
                close = true;
                save = true;
            },
            Some(SaveStatus::Close) => {
                close = true;
            },
            status => self.save_status = status,
        }
        FramePlan { save, open, export, close }
    }

    /// Reports the outcome of a save: a saved track has no unsaved changes.
    pub fn saved(&mut self, ok: bool)
        ensures
            final(self).save_status == (if ok {
                None
            } else {
                old(self).save_status
            }),
            final(self).changes == old(self).changes,
            final(self).action == old(self).action,
            final(self).track_index == old(self).track_index,
    {
        if ok {
            self.save_status = None;
        }
    }

    /// Reports the outcome of opening a track: a new track is loaded from scratch.
    pub fn opened(&mut self, ok: bool)
        ensures
            final(self).changes.0 == (if ok {
                old(self).changes.0 | CHANGE_LOAD_TRACK
            } else {
                old(self).changes.0
            }),
            final(self).track_index == (if ok {
                0
            } else {
                old(self).track_index
            }),
            final(self).save_status == old(self).save_status,
            final(self).action == old(self).action,
    {
        if ok {
            self.changes.insert(CHANGE_LOAD_TRACK);
            self.track_index = 0;
        }
    }

    /// Says what the renderer and the viewport are to do for the pending changes, and clears
    /// them. Any change to what is drawn updates the model, and a model update renders.
    pub fn render_plan(&mut self) -> (r: RenderPlan)
        ensures
            r == spec_render_plan(old(self).changes),
            final(self).changes.0 == 0,
            final(self).save_status == old(self).save_status,
            final(self).action == old(self).action,
            final(self).track_index == old(self).track_index,
    {
        let set_directory = self.changes.contains(CHANGE_DIRECTORY);
        let update_model_settings = self.changes.contains(CHANGE_MODEL_SETTINGS);
        let load_models = self.changes.contains(CHANGE_LOAD_MODELS);
        let load_masks = self.changes.contains(CHANGE_MASKS);
        let update_offsets = self.changes.contains(CHANGE_OFFSETS);
        let update_model = update_model_settings || load_models || load_masks || update_offsets
            || self.changes.contains(CHANGE_UPDATE_MODEL);
        let render = update_model || self.changes.contains(CHANGE_RENDER);
        let clear_image = self.changes.contains(CHANGE_CLEAR_IMAGE);
        let redraw = self.changes.contains(CHANGE_REDRAW);
        self.changes.clear();
        RenderPlan {
            set_directory,
            update_model_settings,
            load_models,
            load_masks,
            update_offsets,
            update_model,
            render,
            clear_image,
            redraw,
        }
    }

    /// The window was asked to close. With a save status pending the close waits for the
    /// confirmation; the result says whether to cancel the close.
    pub fn close_requested(&mut self) -> (r: bool)
        ensures
            r == old(self).save_status is Some,
            final(self).save_status == (if r {
                Some(SaveStatus::ConfirmingClose)
            } else {
                old(self).save_status
            }),
            final(self).changes == old(self).changes,
            final(self).action == old(self).action,
            final(self).track_index == old(self).track_index,
    {
        if self.save_status.is_some() {
            self.save_status = Some(SaveStatus::ConfirmingClose);
            true
        } else {
            false
        }
    }

    /// Applies the answer to an open save confirmation (`None`: not answered yet).
    pub fn confirm(&mut self, choice: Option<Choice>)
        ensures
            final(self).save_status == match old(self).save_status {
                Some(SaveStatus::ConfirmingOpen(p)) => match choice {
                    Some(Choice::NoSave) => Some(SaveStatus::Open(p)),
                    Some(Choice::Save) => Some(SaveStatus::SaveAndOpen(p)),
                    Some(Choice::Cancel) => Some(SaveStatus::Changed),
                    None => Some(SaveStatus::ConfirmingOpen(p)),
                },
                Some(SaveStatus::ConfirmingClose) => match choice {
                    Some(Choice::NoSave) => Some(SaveStatus::Close),
                    Some(Choice::Save) => Some(SaveStatus::SaveAndClose),
                    Some(Choice::Cancel) => Some(SaveStatus::Changed),
                    None => Some(SaveStatus::ConfirmingClose),
                },
                status => status,
            },
            final(self).changes == old(self).changes,
            final(self).action == old(self).action,
            final(self).track_index == old(self).track_index,
    {
        match self.save_status.take() {
            Some(SaveStatus::ConfirmingOpen(file_path)) => match choice {
                Some(Choice::NoSave) => self.save_status = Some(SaveStatus::Open(file_path)),
                Some(Choice::Save) => self.save_status = Some(SaveStatus::SaveAndOpen(file_path)),
                Some(Choice::Cancel) => self.save_status = Some(SaveStatus::Changed),
                None => self.save_status = Some(SaveStatus::ConfirmingOpen(file_path)),
            },
            Some(SaveStatus::ConfirmingClose) => match choice {
                Some(Choice::NoSave) => self.save_status = Some(SaveStatus::Close),
                Some(Choice::Save) => self.save_status = Some(SaveStatus::SaveAndClose),
                Some(Choice::Cancel) => self.save_status = Some(SaveStatus::Changed),
                None => self.save_status = Some(SaveStatus::ConfirmingClose),
            },
            status => self.save_status = status,
        }
    }
}


/// After a track is opened, whatever else is pending, the next render plan sets the new
/// directory, loads the model settings, models, masks and offsets, updates the model, renders
/// and clears the image.
pub proof fn lemma_open_reloads_everything(pending: u32)
    ensures
        ({
            let p = spec_render_plan(Changes(pending | CHANGE_LOAD_TRACK));
            &&& p.set_directory
            &&& p.update_model_settings
            &&& p.load_models
            &&& p.load_masks
            &&& p.update_offsets
            &&& p.update_model
            &&& p.render
            &&& p.clear_image
        }),
{
    assert((pending | 159u32) & 1u32 == 1u32) by (bit_vector);
    assert((pending | 159u32) & 2u32 == 2u32) by (bit_vector);
    assert((pending | 159u32) & 4u32 == 4u32) by (bit_vector);
    assert((pending | 159u32) & 8u32 == 8u32) by (bit_vector);
    assert((pending | 159u32) & 16u32 == 16u32) by (bit_vector);
    assert((pending | 159u32) & 128u32 == 128u32) by (bit_vector);
}

/// Switching to another track of the file reloads its model settings, models and masks, and
/// the next render plan updates the model and renders.
pub proof fn lemma_sub_track_reloads_models(pending: u32)
    ensures
        ({
            let p = spec_render_plan(Changes(pending | CHANGE_SUB_TRACK));
            &&& p.update_model_settings
            &&& p.load_models
            &&& p.load_masks
            &&& p.update_model
            &&& p.render
        }),
{
    assert((pending | 14u32) & 2u32 == 2u32) by (bit_vector);
    assert((pending | 14u32) & 4u32 == 4u32) by (bit_vector);
    assert((pending | 14u32) & 8u32 == 8u32) by (bit_vector);
}

} // verus!
