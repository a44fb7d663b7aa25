use riv::dir::{DirEntry, DirState};
use riv::input::{enter_compare, handle_input, navigate_compare_side, navigate_single, FrameInput, Key};
use riv::state::{
    AppState, BrowseMode, CompareSide, CompareState, DialogState, EditAction, SortField, ViewMode, ViewOp,
    ZoomMode,
};

fn frame(keys: &[Key]) -> FrameInput {
    FrameInput {
        pressed: keys.to_vec(),
        plain: keys.to_vec(),
        command: false,
        shift: false,
        scrolled: false,
        scroll_lines: 0,
        scroll_rows: 0,
        pointer_in_preview: false,
        pointer_down: false,
        pointer_known: false,
        grid_columns: 4,
    }
}

fn entry(name: &str, is_dir: bool) -> DirEntry {
    DirEntry {
        path: format!("/p/{}", name),
        name: name.to_string(),
        is_dir,
        size: 0,
        modified: None,
        zip_source: None,
    }
}

/// "..", one folder, then four images, one of them a GIF.
fn listing() -> DirState {
    DirState {
        entries: vec![
            entry("..", true),
            entry("sub", true),
            entry("a.png", false),
            entry("b.gif", false),
            entry("c.jpg", false),
            entry("d.png", false),
        ],
        image_count: 4,
        dir_count: 1,
        zip_ctx: None,
    }
}

fn state() -> AppState {
    AppState::new("/p".to_string())
}

#[test]
fn list_j_moves_down_and_resets_zoom() {
    let d = listing();
    let mut s = state();
    s.zoom_mode = ZoomMode::Custom;
    let a = handle_input(&frame(&[Key::J]), &mut s, &d);
    assert_eq!(s.selected_index, 1);
    assert!(s.scroll_to_selected);
    assert_eq!(s.zoom_mode, ZoomMode::FitWindow);
    assert_eq!(s.pending_view, vec![ViewOp::ResetLevelAndPan]);
    assert_eq!(a.enter_directory, None);
    assert!(!a.quit);
}

#[test]
fn list_up_at_top_changes_nothing() {
    let d = listing();
    let mut s = state();
    handle_input(&frame(&[Key::K]), &mut s, &d);
    assert_eq!(s.selected_index, 0);
    assert!(!s.scroll_to_selected);
    assert!(s.pending_view.is_empty());
}

#[test]
fn list_enter_on_folder_asks_to_enter_it() {
    let d = listing();
    let mut s = state();
    s.selected_index = 1;
    let a = handle_input(&frame(&[Key::Enter]), &mut s, &d);
    assert_eq!(a.enter_directory, Some(1));
    assert_eq!(s.view_mode, ViewMode::List);
}

#[test]
fn list_enter_on_image_opens_single_view() {
    let d = listing();
    let mut s = state();
    s.selected_index = 2;
    let a = handle_input(&frame(&[Key::Enter]), &mut s, &d);
    assert_eq!(a.enter_directory, None);
    assert_eq!(s.view_mode, ViewMode::Single);
    assert_eq!(s.previous_browse_mode, BrowseMode::List);
}

#[test]
fn q_quits_from_browse_views() {
    let d = listing();
    let mut s = state();
    let a = handle_input(&frame(&[Key::Q]), &mut s, &d);
    assert!(a.quit);
}

#[test]
fn backspace_asks_to_go_up() {
    let d = listing();
    let mut s = state();
    let a = handle_input(&frame(&[Key::Backspace]), &mut s, &d);
    assert!(a.go_up);
}

#[test]
fn s_cycles_sort_field_and_shift_s_flips_direction() {
    let d = listing();
    let mut s = state();
    let a = handle_input(&frame(&[Key::S]), &mut s, &d);
    assert!(a.sort_changed);
    assert_eq!(s.sort_field, SortField::Size);
    let mut f = frame(&[Key::S]);
    f.shift = true;
    let a = handle_input(&f, &mut s, &d);
    assert!(a.sort_changed);
    assert_eq!(s.sort_field, SortField::Size);
    assert!(!s.sort_ascending);
}

#[test]
fn tab_switches_between_list_and_grid() {
    let d = listing();
    let mut s = state();
    handle_input(&frame(&[Key::Tab]), &mut s, &d);
    assert_eq!(s.view_mode, ViewMode::Grid);
    assert!(s.scroll_to_selected);
    handle_input(&frame(&[Key::Tab]), &mut s, &d);
    assert_eq!(s.view_mode, ViewMode::List);
}

#[test]
fn grid_down_moves_by_a_row_of_columns() {
    let d = listing();
    let mut s = state();
    s.view_mode = ViewMode::Grid;
    let mut f = frame(&[Key::ArrowDown]);
    f.grid_columns = 3;
    handle_input(&f, &mut s, &d);
    assert_eq!(s.selected_index, 3);
    // a second row would run past the end: no move
    handle_input(&f, &mut s, &d);
    assert_eq!(s.selected_index, 3);
}

#[test]
fn list_page_down_clamps_to_last_entry() {
    let d = listing();
    let mut s = state();
    handle_input(&frame(&[Key::PageDown]), &mut s, &d);
    assert_eq!(s.selected_index, 5);
    handle_input(&frame(&[Key::PageUp]), &mut s, &d);
    assert_eq!(s.selected_index, 0);
    handle_input(&frame(&[Key::End]), &mut s, &d);
    assert_eq!(s.selected_index, 5);
    handle_input(&frame(&[Key::Home]), &mut s, &d);
    assert_eq!(s.selected_index, 0);
}

#[test]
fn list_wheel_moves_selection() {
    let d = listing();
    let mut s = state();
    s.selected_index = 4;
    let mut f = frame(&[]);
    f.scrolled = true;
    f.scroll_lines = 2;
    handle_input(&f, &mut s, &d);
    assert_eq!(s.selected_index, 2);
    f.scroll_lines = -10;
    handle_input(&f, &mut s, &d);
    assert_eq!(s.selected_index, 5);
}

#[test]
fn command_l_focuses_path_bar_and_slash_starts_filter() {
    let d = listing();
    let mut s = state();
    let mut f = frame(&[Key::L]);
    f.command = true;
    f.plain = vec![];
    let a = handle_input(&f, &mut s, &d);
    assert!(a.focus_path_bar);
    let a = handle_input(&frame(&[Key::Slash]), &mut s, &d);
    assert!(a.start_filter);
}

#[test]
fn edit_keys_request_actions() {
    let d = listing();
    let mut s = state();
    s.selected_index = 2;
    handle_input(&frame(&[Key::Delete]), &mut s, &d);
    assert_eq!(s.pending_edit_action, Some(EditAction::Delete));
    handle_input(&frame(&[Key::F2]), &mut s, &d);
    assert_eq!(s.pending_edit_action, Some(EditAction::Rename));
    handle_input(&frame(&[Key::Y]), &mut s, &d);
    assert_eq!(s.pending_edit_action, Some(EditAction::CopyPath));
    handle_input(&frame(&[Key::G]), &mut s, &d);
    assert_eq!(s.pending_edit_action, Some(EditAction::OpenInGimp));
    handle_input(&frame(&[Key::E]), &mut s, &d);
    assert!(s.show_metadata_overlay);
}

#[test]
fn f_cycles_zoom_mode() {
    let d = listing();
    let mut s = state();
    handle_input(&frame(&[Key::F]), &mut s, &d);
    assert_eq!(s.zoom_mode, ZoomMode::FitWidth);
    assert_eq!(s.pending_view, vec![ViewOp::ResetPan]);
    handle_input(&frame(&[Key::Plus]), &mut s, &d);
    assert_eq!(s.zoom_mode, ZoomMode::Custom);
    assert_eq!(s.pending_view, vec![ViewOp::ResetPan, ViewOp::ZoomIn]);
}

#[test]
fn single_escape_goes_back_to_grid() {
    let d = listing();
    let mut s = state();
    s.view_mode = ViewMode::Single;
    s.previous_browse_mode = BrowseMode::Grid;
    s.selected_index = 2;
    let a = handle_input(&frame(&[Key::Escape]), &mut s, &d);
    assert_eq!(s.view_mode, ViewMode::Grid);
    assert!(s.scroll_to_selected);
    assert!(!a.quit);
}

#[test]
fn single_arrows_skip_folders_and_stop_at_ends() {
    let d = listing();
    let mut s = state();
    s.view_mode = ViewMode::Single;
    s.selected_index = 2;
    handle_input(&frame(&[Key::ArrowLeft]), &mut s, &d);
    assert_eq!(s.selected_index, 2);
    handle_input(&frame(&[Key::ArrowRight]), &mut s, &d);
    assert_eq!(s.selected_index, 3);
    handle_input(&frame(&[Key::End]), &mut s, &d);
    assert_eq!(s.selected_index, 5);
    handle_input(&frame(&[Key::L]), &mut s, &d);
    assert_eq!(s.selected_index, 5);
    handle_input(&frame(&[Key::Home]), &mut s, &d);
    assert_eq!(s.selected_index, 2);
}

#[test]
fn single_space_toggles_gif_animation_and_moves_otherwise() {
    let d = listing();
    let mut s = state();
    s.view_mode = ViewMode::Single;
    s.selected_index = 3;
    assert!(s.animation_playing);
    handle_input(&frame(&[Key::Space]), &mut s, &d);
    assert!(!s.animation_playing);
    assert_eq!(s.selected_index, 3);
    s.selected_index = 4;
    handle_input(&frame(&[Key::Space]), &mut s, &d);
    assert_eq!(s.selected_index, 5);
    assert!(s.animation_playing);
}

#[test]
fn dialog_takes_only_escape() {
    let d = listing();
    let mut s = state();
    s.dialog = Some(DialogState::Rename { original_path: "/p/a.png".to_string(), new_name: "a.png".to_string() });
    let a = handle_input(&frame(&[Key::J, Key::Q]), &mut s, &d);
    assert!(!a.quit);
    assert_eq!(s.selected_index, 0);
    assert!(s.dialog.is_some());
    let a = handle_input(&frame(&[Key::Escape]), &mut s, &d);
    assert!(s.dialog.is_none());
    assert_eq!(a.consumed, Some(Key::Escape));
}

#[test]
fn path_bar_escape_restores_current_dir() {
    let d = listing();
    let mut s = state();
    s.path_bar_focused = true;
    s.path_bar_text = "/typed/elsewhere".to_string();
    let a = handle_input(&frame(&[Key::Escape]), &mut s, &d);
    assert!(!s.path_bar_focused);
    assert_eq!(s.path_bar_text, "/p");
    assert_eq!(a.consumed, Some(Key::Escape));
}

#[test]
fn empty_listing_handles_only_quit_up_path_and_filter() {
    let d = DirState { entries: vec![], image_count: 0, dir_count: 0, zip_ctx: None };
    let mut s = state();
    let a = handle_input(&frame(&[Key::Q, Key::Backspace, Key::J, Key::Slash]), &mut s, &d);
    assert!(a.quit);
    assert!(a.go_up);
    assert!(a.start_filter);
    assert_eq!(s.selected_index, 0);
    assert!(s.pending_view.is_empty());
}

#[test]
fn filter_arrows_move_within_matches_and_enter_opens() {
    let d = listing();
    let mut s = state();
    s.filter_active = true;
    s.filter_text = "png".to_string();
    s.filtered_indices = vec![2, 5];
    handle_input(&frame(&[Key::ArrowDown]), &mut s, &d);
    assert_eq!(s.selected_index, 1);
    handle_input(&frame(&[Key::ArrowDown]), &mut s, &d);
    assert_eq!(s.selected_index, 1);
    let a = handle_input(&frame(&[Key::Enter]), &mut s, &d);
    assert_eq!(a.consumed, Some(Key::Enter));
    assert!(!s.filter_active);
    assert_eq!(s.selected_index, 5);
    assert_eq!(s.view_mode, ViewMode::Single);
}

#[test]
fn filter_escape_keeps_entry_selected() {
    let d = listing();
    let mut s = state();
    s.filter_active = true;
    s.filtered_indices = vec![2, 5];
    s.selected_index = 1;
    handle_input(&frame(&[Key::Escape]), &mut s, &d);
    assert!(!s.filter_active);
    assert_eq!(s.selected_index, 5);
    assert!(s.scroll_to_selected);
}

#[test]
fn c_compares_selected_with_next_image() {
    let d = listing();
    let mut s = state();
    s.selected_index = 3;
    handle_input(&frame(&[Key::C]), &mut s, &d);
    assert_eq!(s.view_mode, ViewMode::Compare);
    let c = s.compare.as_ref().unwrap();
    assert_eq!((c.left_index, c.right_index), (3, 4));
    assert_eq!(c.active_side, CompareSide::Left);
    assert!(c.locked);
}

#[test]
fn compare_keys_switch_side_and_escape_leaves() {
    let d = listing();
    let mut s = state();
    s.view_mode = ViewMode::Compare;
    s.previous_browse_mode = BrowseMode::List;
    s.compare = Some(CompareState::new(2, 3));
    handle_input(&frame(&[Key::Tab]), &mut s, &d);
    assert_eq!(s.compare.as_ref().unwrap().active_side, CompareSide::Right);
    handle_input(&frame(&[Key::ArrowRight]), &mut s, &d);
    assert_eq!(s.compare.as_ref().unwrap().right_index, 4);
    handle_input(&frame(&[Key::K]), &mut s, &d);
    assert!(!s.compare.as_ref().unwrap().locked);
    handle_input(&frame(&[Key::Escape]), &mut s, &d);
    assert_eq!(s.view_mode, ViewMode::List);
    assert!(s.compare.is_none());
}

#[test]
fn navigate_single_skips_folders() {
    let d = listing();
    let mut s = state();
    s.selected_index = 0;
    navigate_single(&mut s, &d, true);
    assert_eq!(s.selected_index, 2);
    assert_eq!(s.pending_view, vec![ViewOp::ResetLevelAndPan, ViewOp::RestartAnimation]);
    navigate_single(&mut s, &d, false);
    assert_eq!(s.selected_index, 2);
}

#[test]
fn navigate_compare_side_moves_active_side_only() {
    let d = listing();
    let mut c = CompareState::new(2, 4);
    navigate_compare_side(&mut c, &d, true);
    assert_eq!((c.left_index, c.right_index), (3, 4));
    c.active_side = CompareSide::Right;
    navigate_compare_side(&mut c, &d, true);
    navigate_compare_side(&mut c, &d, true);
    assert_eq!((c.left_index, c.right_index), (3, 5));
}

#[test]
fn enter_compare_uses_two_multi_selected_images() {
    let d = listing();
    let mut s = state();
    s.view_mode = ViewMode::Grid;
    s.toggle_select(5);
    s.toggle_select(2);
    enter_compare(&mut s, &d);
    assert_eq!(s.view_mode, ViewMode::Compare);
    assert_eq!(s.previous_browse_mode, BrowseMode::Grid);
    let c = s.compare.as_ref().unwrap();
    assert_eq!((c.left_index, c.right_index), (2, 5));
}

#[test]
fn enter_compare_on_folder_does_nothing() {
    let d = listing();
    let mut s = state();
    s.selected_index = 1;
    enter_compare(&mut s, &d);
    assert_eq!(s.view_mode, ViewMode::List);
    assert!(s.compare.is_none());
}

#[test]
fn selection_stays_inside_the_listing_whatever_the_keys() {
    let keys = [
        Key::ArrowDown,
        Key::J,
        Key::End,
        Key::PageDown,
        Key::ArrowRight,
        Key::Space,
        Key::G,
        Key::ArrowUp,
        Key::K,
        Key::Home,
        Key::PageUp,
        Key::ArrowLeft,
        Key::Backspace,
    ];
    for mode in [ViewMode::List, ViewMode::Grid, ViewMode::Single] {
        let d = listing();
        for start in 0..d.entries.len() {
            for key in keys {
                let mut s = state();
                s.view_mode = mode;
                s.selected_index = start;
                let _ = handle_input(&frame(&[key]), &mut s, &d);
                assert!(s.selected_index < d.entries.len(), "{:?} from {} in {:?}", key, start, mode);
                let _ = handle_input(&frame(&[key, key, key]), &mut s, &d);
                assert!(s.selected_index < d.entries.len(), "{:?} from {} in {:?}", key, start, mode);
            }
        }
    }
}

#[test]
fn enter_then_escape_comes_back_to_the_same_entry() {
    let d = listing();
    for start in 2..d.entries.len() {
        let mut s = state();
        s.selected_index = start;
        let a = handle_input(&frame(&[Key::Enter]), &mut s, &d);
        assert_eq!(s.view_mode, ViewMode::Single);
        assert_eq!(s.previous_browse_mode, BrowseMode::List);
        assert_eq!(a.enter_directory, None);
        let a = handle_input(&frame(&[Key::Escape]), &mut s, &d);
        assert_eq!(s.view_mode, ViewMode::List);
        assert_eq!(s.selected_index, start);
        assert!(!a.quit);
    }
}
