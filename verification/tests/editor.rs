use rctgen::editor::{
    Action, Changes, Choice, EditorState, SaveStatus, CHANGE_LOAD_MODELS, CHANGE_LOAD_TRACK, CHANGE_REDRAW,
    CHANGE_RENDER, CHANGE_SUB_TRACK,
};
use rctgen::mask::MeshType;
use rctgen::render_queue::{apply_extrusion_types, batch_plan, last_render_index, RenderMessageKind, RenderSlots};
use rctgen::viewport::{ViewportButton, ViewportControls};
use rctgen::settings::{RecentFiles, Settings, RECENT_FILES_LIMIT};

fn idle_state() -> EditorState {
    let mut state = EditorState::new();
    state.changes.clear();
    state
}

#[test]
fn new_editor_loads_everything() {
    let mut state = EditorState::new();
    assert_eq!(state.changes, Changes(CHANGE_LOAD_TRACK));
    let plan = state.begin_frame(false, false);
    assert!(!plan.save && plan.open.is_none() && !plan.export && !plan.close);
    assert_eq!(state.save_status, Some(SaveStatus::Changed));
    let render = state.render_plan();
    assert!(render.set_directory && render.update_model_settings && render.load_models);
    assert!(render.load_masks && render.update_offsets && render.update_model && render.render);
    assert!(render.clear_image && !render.redraw);
    assert!(state.changes.is_empty());
}

#[test]
fn idle_frame_does_nothing() {
    let mut state = idle_state();
    let plan = state.begin_frame(false, false);
    assert!(!plan.save && plan.open.is_none() && !plan.export && !plan.close);
    assert_eq!(state.save_status, None);
    let render = state.render_plan();
    assert!(!render.update_model && !render.render && !render.redraw);
}

#[test]
fn new_frame_redraws_and_reload_reloads_models() {
    let mut state = idle_state();
    state.begin_frame(true, true);
    assert!(state.changes.contains(CHANGE_REDRAW));
    assert!(state.changes.contains(CHANGE_LOAD_MODELS));
    let render = state.render_plan();
    assert!(render.redraw && render.load_models && render.update_model && render.render);
    assert!(!render.load_masks);
}

#[test]
fn opening_with_unsaved_changes_asks_first() {
    let mut state = idle_state();
    state.save_status = Some(SaveStatus::Changed);
    state.action = Some(Action::Open(String::from("other.json")));
    let plan = state.begin_frame(false, false);
    assert!(plan.open.is_none());
    assert_eq!(state.save_status, Some(SaveStatus::ConfirmingOpen(String::from("other.json"))));
    state.confirm(Some(Choice::Save));
    assert_eq!(state.save_status, Some(SaveStatus::SaveAndOpen(String::from("other.json"))));
    let plan = state.begin_frame(false, false);
    assert!(plan.save);
    assert_eq!(plan.open, Some(String::from("other.json")));
    assert_eq!(state.save_status, None);
    state.saved(true);
    state.opened(true);
    assert!(state.changes.contains(CHANGE_LOAD_TRACK));
}

#[test]
fn opening_without_changes_opens_at_once() {
    let mut state = idle_state();
    state.action = Some(Action::Open(String::from("a.json")));
    let plan = state.begin_frame(false, false);
    assert_eq!(plan.open, Some(String::from("a.json")));
}

#[test]
fn cancelled_confirmation_keeps_the_changes() {
    let mut state = idle_state();
    state.save_status = Some(SaveStatus::ConfirmingClose);
    state.confirm(None);
    assert_eq!(state.save_status, Some(SaveStatus::ConfirmingClose));
    state.confirm(Some(Choice::Cancel));
    assert_eq!(state.save_status, Some(SaveStatus::Changed));
}

#[test]
fn closing_with_unsaved_changes_waits_for_confirmation() {
    let mut state = idle_state();
    assert!(!state.close_requested());
    state.save_status = Some(SaveStatus::Changed);
    assert!(state.close_requested());
    state.confirm(Some(Choice::NoSave));
    let plan = state.begin_frame(false, false);
    assert!(plan.close && !plan.save);
}

#[test]
fn changing_track_reloads_its_models() {
    let mut state = idle_state();
    state.action = Some(Action::ChangeTrack(2));
    state.begin_frame(false, false);
    assert_eq!(state.track_index, 2);
    assert!(state.changes.contains(CHANGE_SUB_TRACK));
    let render = state.render_plan();
    assert!(render.update_model_settings && render.load_models && render.load_masks && render.render);
    assert!(!render.set_directory && !render.update_offsets);
}

#[test]
fn render_change_alone_renders_without_model_update() {
    let mut state = idle_state();
    state.changes.insert(CHANGE_RENDER);
    let render = state.render_plan();
    assert!(render.render && !render.update_model);
}

#[test]
fn failed_save_keeps_status() {
    let mut state = idle_state();
    state.save_status = Some(SaveStatus::Changed);
    state.saved(false);
    assert_eq!(state.save_status, Some(SaveStatus::Changed));
    state.saved(true);
    assert_eq!(state.save_status, None);
}

#[test]
fn only_the_last_render_of_a_batch_is_served() {
    let k = |x: RenderMessageKind| x;
    assert_eq!(
        last_render_index(&[
            k(RenderMessageKind::Render),
            k(RenderMessageKind::SetDirectory),
            k(RenderMessageKind::Render),
            k(RenderMessageKind::LoadMasks),
        ]),
        Some(2)
    );
    assert_eq!(last_render_index(&[RenderMessageKind::SetDirectory, RenderMessageKind::LoadModels]), None);
    assert_eq!(last_render_index(&[]), None);
}

#[test]
fn render_slots_wait_for_their_inputs() {
    let mut slots = RenderSlots::new();
    slots.handled(RenderMessageKind::LoadModels, true);
    assert!(!slots.models);
    slots.handled(RenderMessageKind::SetDirectory, true);
    slots.handled(RenderMessageKind::UpdateModelSettings, true);
    assert!(slots.can_load_models());
    slots.handled(RenderMessageKind::LoadModels, true);
    assert!(slots.can_update_model());
    assert!(!slots.can_render());
    slots.handled(RenderMessageKind::UpdateModel, true);
    assert!(slots.can_render());
    slots.handled(RenderMessageKind::UpdateOffsets, true);
    assert!(!slots.can_render());
    slots.handled(RenderMessageKind::LoadMasks, false);
    assert!(!slots.masks);
}

#[test]
fn recent_files_put_the_latest_first_once() {
    let mut files = RecentFiles::new();
    assert!(files.is_empty());
    files.add("a.json");
    files.add("b.json");
    files.add("a.json");
    let list: Vec<&str> = files.get().iter().map(|s| s.as_str()).collect();
    assert_eq!(list, vec!["a.json", "b.json"]);
    files.remove(0);
    let list: Vec<&str> = files.get().iter().map(|s| s.as_str()).collect();
    assert_eq!(list, vec!["b.json"]);
    files.remove(5);
    assert_eq!(files.get().len(), 1);
    files.clear();
    assert!(files.is_empty());
}

#[test]
fn recent_files_keep_fifty() {
    let mut files = RecentFiles::new();
    for i in 0..60 {
        files.add(&format!("track_{i}.json"));
    }
    assert_eq!(files.get().len(), RECENT_FILES_LIMIT);
    assert_eq!(files.get()[0], "track_59.json");
    assert_eq!(files.get()[49], "track_10.json");
}

#[test]
fn default_settings_are_empty() {
    let settings = Settings::default();
    assert!(settings.track_export_directory.is_none());
    assert!(settings.recent_track_files.is_empty());
}

#[test]
fn extrusions_take_the_view_mesh_types() {
    let mut mesh_types = vec![MeshType::Normal; 5];
    apply_extrusion_types(&mut mesh_types, &[0, 2], Some(MeshType::Mask), &[2, 3], Some(MeshType::Normal));
    // Mesh 2 is extruded at both ends: the end ahead wins.
    assert_eq!(
        mesh_types,
        vec![MeshType::Mask, MeshType::Normal, MeshType::Normal, MeshType::Normal, MeshType::Normal]
    );
    let mut mesh_types = vec![MeshType::Normal, MeshType::Normal];
    // Without a type for an end its meshes keep theirs, whatever the ids.
    apply_extrusion_types(&mut mesh_types, &[1], Some(MeshType::Mask), &[7], None);
    assert_eq!(mesh_types, vec![MeshType::Normal, MeshType::Mask]);
}

#[test]
fn batches_stop_at_exit_and_serve_the_last_render() {
    let plan = batch_plan(&[RenderMessageKind::SetDirectory, RenderMessageKind::Render, RenderMessageKind::LoadModels, RenderMessageKind::Render, RenderMessageKind::UpdateModel]);
    assert_eq!(plan.work, vec![0, 2, 4]);
    assert_eq!(plan.render, Some(3));
    assert!(!plan.exit);
    let plan = batch_plan(&[RenderMessageKind::LoadMasks, RenderMessageKind::Render, RenderMessageKind::Exit, RenderMessageKind::UpdateModel]);
    assert_eq!(plan.work, vec![0]);
    assert!(plan.exit);
    assert_eq!(plan.stop, 2);
    assert_eq!(plan.render, None);
}

#[test]
fn viewport_turns_and_zooms_within_limits() {
    let mut controls = ViewportControls::new();
    assert!(!controls.can_zoom_out());
    assert_eq!(controls.press(ViewportButton::ZoomOut), 0);
    assert_eq!(controls.zoom, 1);
    for _ in 0..5 {
        controls.press(ViewportButton::ZoomIn);
    }
    assert_eq!(controls.zoom, 4);
    assert!(!controls.can_zoom_in());
    for _ in 0..3 {
        assert_eq!(controls.press(ViewportButton::Rotate), rctgen::editor::CHANGE_UPDATE_MODEL);
    }
    assert_eq!(controls.rotation, 3);
    controls.press(ViewportButton::Rotate);
    assert_eq!(controls.rotation, 0);
}

#[test]
fn recent_files_compare_paths_by_component() {
    let mut files = RecentFiles::new();
    files.add("tracks/a.json");
    files.add("/x/b.json");
    files.add("tracks//./a.json");
    let list: Vec<&str> = files.get().iter().map(|s| s.as_str()).collect();
    assert_eq!(list, vec!["tracks//./a.json", "/x/b.json"]);
    // A leading "." and a root are components of their own.
    files.add("./tracks/a.json");
    files.add("x/b.json");
    assert_eq!(files.get().len(), 4);
    // Adding the first file again changes nothing.
    let before: Vec<String> = files.get().iter().cloned().collect();
    files.add("x/b.json");
    let after: Vec<String> = files.get().iter().cloned().collect();
    assert_eq!(before, after);
}

#[test]
fn path_keys_ignore_repeated_and_trailing_separators() {
    use_path_key("a//b/", "a/b");
    use_path_key("/a/./b", "/a/b");
    use_path_key("./a", "./a");
    use_path_key("/", "/");
    use_path_key("", "");
}

fn use_path_key(path: &str, key: &str) {
    assert_eq!(rctgen::path_key::path_key(path), key);
}
