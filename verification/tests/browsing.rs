use riv::browser::{
    archive_location_text, choose_image_filter, choose_zoom_mode, click_row, copy_job_for, current_name,
    dispatch_edit_action, double_click_image, double_click_row, dropped_path_action, edit_menu, enter_destination,
    filter_indices, find_named, find_path, first_image, go, metadata_entry_index, names_of, open_file, open_listing,
    prefetch_candidates, recompute_filter, refresh_listing, rename_target_path, reselect, reselect_after_key,
    resort_after_key, resort_from_menu, selected_paths, split_positions, start_filter, start_folder_of,
    typed_path_action, up_destination, CopySource, Destination, EditCommand, GoTarget, PathAction,
};
use riv::dir::{DirEntry, DirState, ZipContext, ZipSource};
use riv::state::{AppState, CompareState, DialogState, EditAction, ImageFilter, SortField, ViewMode, ViewOp, ZoomMode};

fn entry(path: &str, name: &str, is_dir: bool) -> DirEntry {
    DirEntry { path: path.to_string(), name: name.to_string(), is_dir, size: 0, modified: None, zip_source: None }
}

fn sized(name: &str, size: u64) -> DirEntry {
    DirEntry { path: format!("/p/{}", name), name: name.to_string(), is_dir: false, size, modified: None, zip_source: None }
}

fn listing() -> DirState {
    DirState {
        entries: vec![
            entry("/", "..", true),
            entry("/p/sub", "sub", true),
            entry("/p/Alpha.png", "Alpha.png", false),
            entry("/p/beta.jpg", "beta.jpg", false),
            entry("/p/gamma.png", "gamma.png", false),
        ],
        image_count: 3,
        dir_count: 1,
        zip_ctx: None,
    }
}

fn zipped_listing() -> DirState {
    DirState {
        entries: vec![
            entry("/d", "..", true),
            entry("/d/a.zip!inner", "inner", true),
            DirEntry {
                path: "/d/a.zip!x.png".to_string(),
                name: "x.png".to_string(),
                is_dir: false,
                size: 4,
                modified: None,
                zip_source: Some(ZipSource { archive_path: "/d/a.zip".to_string(), entry_name: "x.png".to_string() }),
            },
        ],
        image_count: 1,
        dir_count: 1,
        zip_ctx: Some(ZipContext { archive_path: "/d/a.zip".to_string(), inner_prefix: String::new() }),
    }
}

fn state() -> AppState {
    AppState::new("/p".to_string())
}

fn folder_of(d: Option<Destination>) -> Option<String> {
    match d {
        Some(Destination::Folder(p)) => Some(p),
        _ => None,
    }
}

fn archive_of(d: Option<Destination>) -> Option<(String, String)> {
    match d {
        Some(Destination::Archive { archive, prefix }) => Some((archive, prefix)),
        _ => None,
    }
}

#[test]
fn up_from_disk_folder_goes_to_parent() {
    let d = listing();
    assert_eq!(folder_of(up_destination(&d, "/p/q")), Some("/p".to_string()));
    assert!(up_destination(&d, "/").is_none());
}

#[test]
fn up_from_archive_root_goes_to_archive_folder() {
    let d = zipped_listing();
    assert_eq!(folder_of(up_destination(&d, "/d/a.zip")), Some("/d".to_string()));
}

#[test]
fn up_from_archive_subfolder_stays_in_archive() {
    let mut d = zipped_listing();
    d.zip_ctx = Some(ZipContext { archive_path: "/d/a.zip".to_string(), inner_prefix: "x/y/".to_string() });
    assert_eq!(archive_of(up_destination(&d, "")), Some(("/d/a.zip".to_string(), "x/".to_string())));
    d.zip_ctx = Some(ZipContext { archive_path: "/d/a.zip".to_string(), inner_prefix: "x/".to_string() });
    assert_eq!(archive_of(up_destination(&d, "")), Some(("/d/a.zip".to_string(), String::new())));
}

#[test]
fn enter_destinations() {
    let d = listing();
    assert_eq!(folder_of(enter_destination(&d, "/p", 0, true)), Some("/".to_string()));
    assert_eq!(folder_of(enter_destination(&d, "/p", 1, true)), Some("/p/sub".to_string()));
    let mut z = listing();
    z.entries[1] = entry("/p/pack.ZIP", "pack.ZIP", true);
    assert_eq!(archive_of(enter_destination(&z, "/p", 1, true)), Some(("/p/pack.ZIP".to_string(), String::new())));
    assert_eq!(folder_of(enter_destination(&z, "/p", 1, false)), Some("/p/pack.ZIP".to_string()));
    let a = zipped_listing();
    assert_eq!(archive_of(enter_destination(&a, "/d/a.zip", 1, false)), Some(("/d/a.zip".to_string(), "inner/".to_string())));
    // entering and going up inside the archive comes back
    let mut inside = a;
    inside.zip_ctx = Some(ZipContext { archive_path: "/d/a.zip".to_string(), inner_prefix: "inner/".to_string() });
    assert_eq!(archive_of(up_destination(&inside, "")), Some(("/d/a.zip".to_string(), String::new())));
}

#[test]
fn archive_location_texts() {
    assert_eq!(archive_location_text("/d/a.zip", ""), "/d/a.zip");
    assert_eq!(archive_location_text("/d/a.zip", "sub/"), "/d/a.zip!sub/");
}

#[test]
fn first_image_skips_folders() {
    assert_eq!(first_image(&listing()), 2);
    let only_dirs = DirState { entries: vec![entry("/", "..", true)], image_count: 0, dir_count: 0, zip_ctx: None };
    assert_eq!(first_image(&only_dirs), 0);
}

#[test]
fn open_listing_selects_first_image_and_sorts() {
    let mut d = DirState {
        entries: vec![sized("b.png", 1), sized("a.png", 9)],
        image_count: 2,
        dir_count: 0,
        zip_ctx: None,
    };
    let mut s = state();
    s.sort_field = SortField::Size;
    s.sort_ascending = false;
    s.filter_active = true;
    s.filtered_indices = vec![0];
    s.preview_focused = true;
    open_listing(&mut s, &mut d, "/q".to_string());
    assert_eq!(d.entries[0].name, "a.png");
    assert_eq!(s.current_dir, "/q");
    assert_eq!(s.path_bar_text, "/q");
    assert!(!s.filter_active);
    assert!(!s.preview_focused);
    assert_eq!(s.selected_index, 0);
}

#[test]
fn filter_matches_names_ignoring_case() {
    let d = listing();
    assert_eq!(filter_indices(&d, "A"), vec![2, 3, 4]);
    assert_eq!(filter_indices(&d, "PNG"), vec![2, 4]);
    assert_eq!(filter_indices(&d, "zzz"), Vec::<usize>::new());
    assert_eq!(filter_indices(&d, ""), vec![0, 1, 2, 3, 4]);
}

#[test]
fn start_and_recompute_filter() {
    let d = listing();
    let mut s = state();
    start_filter(&mut s, &d);
    assert!(s.filter_active);
    assert_eq!(s.filtered_indices, vec![0, 1, 2, 3, 4]);
    assert!(s.scroll_to_selected);
    s.selected_index = 4;
    s.filter_text = "png".to_string();
    recompute_filter(&mut s, &d);
    assert_eq!(s.filtered_indices, vec![2, 4]);
    assert_eq!(s.selected_index, 1);
    s.filter_text = "none".to_string();
    recompute_filter(&mut s, &d);
    assert!(s.filtered_indices.is_empty());
    assert_eq!(s.selected_index, 0);
}

#[test]
fn find_by_name_and_path() {
    let d = listing();
    assert_eq!(find_named(&d, "beta.jpg"), Some(3));
    assert_eq!(find_named(&d, "BETA.jpg"), None);
    assert_eq!(find_path(&d, "/p/gamma.png"), Some(4));
    assert_eq!(find_path(&d, "/p/none.png"), None);
}

#[test]
fn current_name_through_filter() {
    let d = listing();
    let mut s = state();
    s.selected_index = 3;
    assert_eq!(current_name(&s, &d), Some("beta.jpg".to_string()));
    s.filter_active = true;
    s.filtered_indices = vec![2, 4];
    s.selected_index = 7;
    assert_eq!(current_name(&s, &d), Some("gamma.png".to_string()));
    s.filter_active = false;
    s.selected_index = 99;
    assert_eq!(current_name(&s, &d), None);
}

#[test]
fn resort_after_key_keeps_selected_entry() {
    let mut d = DirState {
        entries: vec![sized("a.png", 5), sized("b.png", 1), sized("c.png", 3)],
        image_count: 3,
        dir_count: 0,
        zip_ctx: None,
    };
    let mut s = state();
    s.selected_index = 0;
    s.sort_field = SortField::Size;
    resort_after_key(&mut s, &mut d);
    let names: Vec<&str> = d.entries.iter().map(|e| e.name.as_str()).collect();
    assert_eq!(names, vec!["b.png", "c.png", "a.png"]);
    assert_eq!(s.selected_index, 2);
    assert!(s.scroll_to_selected);
}

#[test]
fn resort_from_menu_keeps_selected_entry() {
    let mut d = DirState {
        entries: vec![sized("a.png", 5), sized("b.png", 1)],
        image_count: 2,
        dir_count: 0,
        zip_ctx: None,
    };
    let mut s = state();
    s.selected_index = 1;
    s.sort_field = SortField::Name;
    s.sort_ascending = false;
    resort_from_menu(&mut s, &mut d);
    assert_eq!(d.entries[0].name, "b.png");
    assert_eq!(s.selected_index, 0);
    assert!(s.scroll_to_selected);
}

#[test]
fn reselect_after_key_under_filter() {
    let d = listing();
    let mut s = state();
    s.filter_active = true;
    s.filter_text = "png".to_string();
    s.filtered_indices = vec![];
    reselect_after_key(&mut s, &d, Some("gamma.png".to_string()));
    assert_eq!(s.filtered_indices, vec![2, 4]);
    assert_eq!(s.selected_index, 1);
    assert!(s.scroll_to_selected);
}

#[test]
fn refresh_and_reselect() {
    let mut d = DirState {
        entries: vec![sized("z.png", 1), sized("y.png", 1)],
        image_count: 2,
        dir_count: 0,
        zip_ctx: None,
    };
    let mut s = state();
    s.toggle_select(1);
    refresh_listing(&mut s, &mut d, Some("z.png".to_string()));
    assert_eq!(d.entries[1].name, "z.png");
    assert_eq!(s.selected_index, 1);
    assert_eq!(s.multi_select_count(), 0);
    reselect(&mut s, &d, Some("missing".to_string()));
    assert_eq!(s.selected_index, 1);
    reselect(&mut s, &d, Some("y.png".to_string()));
    assert_eq!(s.selected_index, 0);
}

#[test]
fn zoom_mode_and_filter_menus() {
    let mut s = state();
    choose_zoom_mode(&mut s, ZoomMode::Original);
    assert_eq!(s.zoom_mode, ZoomMode::Original);
    assert_eq!(s.default_zoom_mode, ZoomMode::Original);
    assert_eq!(s.pending_view, vec![ViewOp::ResetLevelAndPan]);
    assert!(choose_image_filter(&mut s, ImageFilter::Linear));
    assert!(!choose_image_filter(&mut s, ImageFilter::Linear));
    assert_eq!(s.image_filter, ImageFilter::Linear);
}

#[test]
fn edit_menu_items() {
    let d = listing();
    let mut s = state();
    s.selected_index = 2;
    let m = edit_menu(&s, &d);
    assert!(m.has_selection && m.single_enabled && m.file_enabled);
    s.toggle_select(3);
    let m = edit_menu(&s, &d);
    assert!(m.has_selection && !m.single_enabled && m.file_enabled);
    s.selected_index = 1;
    let m = edit_menu(&s, &d);
    assert!(m.has_selection && !m.single_enabled && !m.file_enabled);
    s.selected_index = 50;
    let m = edit_menu(&s, &d);
    assert!(!m.has_selection);
}

#[test]
fn metadata_only_for_files_on_disk() {
    let mut s = state();
    s.selected_index = 2;
    assert_eq!(metadata_entry_index(&s, &listing()), Some(2));
    assert_eq!(metadata_entry_index(&s, &zipped_listing()), None);
    s.selected_index = 1;
    assert_eq!(metadata_entry_index(&s, &listing()), None);
}

#[test]
fn selected_paths_follow_multi_selection_in_listing_order() {
    let d = listing();
    let mut s = state();
    s.selected_index = 3;
    assert_eq!(selected_paths(&s, &d), vec!["/p/beta.jpg".to_string()]);
    s.toggle_select(4);
    s.toggle_select(1);
    s.toggle_select(2);
    s.toggle_select(9);
    assert_eq!(selected_paths(&s, &d), vec!["/p/Alpha.png".to_string(), "/p/gamma.png".to_string()]);
    assert_eq!(names_of(&selected_paths(&s, &d)), vec!["Alpha.png".to_string(), "gamma.png".to_string()]);
}

#[test]
fn names_of_skips_paths_without_names() {
    let v = vec!["/a/b.png".to_string(), "/".to_string(), "c.jpg".to_string(), "/x/..".to_string()];
    assert_eq!(names_of(&v), vec!["b.png".to_string(), "c.jpg".to_string()]);
}

#[test]
fn edit_actions_open_dialogs_and_commands() {
    let d = listing();
    let mut s = state();
    s.selected_index = 3;
    match dispatch_edit_action(&mut s, &d, EditAction::Rename) {
        EditCommand::Done => {}
        _ => panic!("rename only opens its dialog"),
    }
    match &s.dialog {
        Some(DialogState::Rename { original_path, new_name }) => {
            assert_eq!(original_path, "/p/beta.jpg");
            assert_eq!(new_name, "beta.jpg");
        }
        _ => panic!("rename dialog expected"),
    }
    s.dialog = None;
    match dispatch_edit_action(&mut s, &d, EditAction::RotateRight) {
        EditCommand::Rotate { path, clockwise } => {
            assert_eq!(path, "/p/beta.jpg");
            assert!(clockwise);
        }
        _ => panic!("rotation expected"),
    }
    match dispatch_edit_action(&mut s, &d, EditAction::OpenInKrita) {
        EditCommand::OpenWith { tool, path } => {
            assert_eq!(tool, "krita");
            assert_eq!(path, "/p/beta.jpg");
        }
        _ => panic!("tool expected"),
    }
    match dispatch_edit_action(&mut s, &d, EditAction::CopyPath) {
        EditCommand::CopyPath(p) => assert_eq!(p, "/p/beta.jpg"),
        _ => panic!("copy path expected"),
    }
    dispatch_edit_action(&mut s, &d, EditAction::Delete);
    match &s.dialog {
        Some(DialogState::DeleteConfirm { paths, names }) => {
            assert_eq!(paths, &vec!["/p/beta.jpg".to_string()]);
            assert_eq!(names, &vec!["beta.jpg".to_string()]);
        }
        _ => panic!("delete dialog expected"),
    }
    s.dialog = None;
    dispatch_edit_action(&mut s, &d, EditAction::CopyTo);
    match &s.dialog {
        Some(DialogState::CopyTo { source_paths, dest_path }) => {
            assert_eq!(source_paths, &vec!["/p/beta.jpg".to_string()]);
            assert_eq!(dest_path, "/p");
        }
        _ => panic!("copy dialog expected"),
    }
    s.dialog = None;
    dispatch_edit_action(&mut s, &d, EditAction::ViewMetadata);
    assert!(s.show_metadata_popup);
    dispatch_edit_action(&mut s, &d, EditAction::Compare);
    assert_eq!(s.view_mode, ViewMode::Compare);
    let c: &CompareState = s.compare.as_ref().unwrap();
    assert_eq!((c.left_index, c.right_index), (3, 4));
}

#[test]
fn file_operations_refused_inside_archives() {
    let d = zipped_listing();
    let mut s = AppState::new("/d/a.zip".to_string());
    s.selected_index = 2;
    assert!(matches!(dispatch_edit_action(&mut s, &d, EditAction::RotateLeft), EditCommand::Done));
    assert!(matches!(dispatch_edit_action(&mut s, &d, EditAction::OpenInGimp), EditCommand::Done));
    dispatch_edit_action(&mut s, &d, EditAction::Rename);
    assert!(s.dialog.is_none());
    dispatch_edit_action(&mut s, &d, EditAction::Delete);
    assert!(s.dialog.is_none());
    match dispatch_edit_action(&mut s, &d, EditAction::CopyPath) {
        EditCommand::CopyPath(p) => assert_eq!(p, "/d/a.zip!x.png"),
        _ => panic!("copy path expected"),
    }
}

#[test]
fn clicks_select_and_multi_select() {
    let mut s = state();
    s.preview_focused = true;
    click_row(&mut s, 3, 3, false, false);
    assert_eq!(s.selected_index, 3);
    assert!(!s.preview_focused);
    assert_eq!(s.last_click_index, Some(3));
    click_row(&mut s, 5, 5, false, true);
    assert_eq!(s.multi_select_count(), 3);
    assert!(s.is_multi_selected(4));
    assert_eq!(s.selected_index, 5);
    click_row(&mut s, 4, 4, true, false);
    assert!(!s.is_multi_selected(4));
    assert_eq!(s.selected_index, 5);
    click_row(&mut s, 1, 1, false, false);
    assert_eq!(s.multi_select_count(), 0);
}

#[test]
fn double_clicks() {
    let mut s = state();
    s.toggle_select(2);
    double_click_image(&mut s, 4);
    assert_eq!(s.view_mode, ViewMode::Single);
    assert_eq!(s.selected_index, 4);
    assert_eq!(s.multi_select_count(), 0);
    let mut t = state();
    double_click_row(&mut t, 7, 1, true);
    assert_eq!(t.double_click_enter, Some(7));
    assert_eq!(t.selected_index, 1);
    let mut u = state();
    double_click_row(&mut u, 7, 2, false);
    assert_eq!(u.double_click_enter, None);
}

#[test]
fn split_positions_of_listing() {
    assert_eq!(split_positions(&listing()), (vec![0, 1], vec![2, 3, 4]));
}

#[test]
fn go_menu_moves() {
    let d = listing();
    let mut s = state();
    go(&mut s, &d, GoTarget::Last);
    assert_eq!(s.selected_index, 4);
    go(&mut s, &d, GoTarget::Next);
    assert_eq!(s.selected_index, 4);
    go(&mut s, &d, GoTarget::Previous);
    assert_eq!(s.selected_index, 3);
    go(&mut s, &d, GoTarget::First);
    assert_eq!(s.selected_index, 0);
    assert!(s.scroll_to_selected);
}

#[test]
fn prefetch_neighbour_files() {
    let d = listing();
    let mut s = state();
    s.selected_index = 3;
    assert_eq!(prefetch_candidates(&s, &d), vec![3, 2, 4]);
    s.view_mode = ViewMode::Single;
    assert_eq!(prefetch_candidates(&s, &d), vec![2, 4]);
    s.view_mode = ViewMode::Compare;
    s.compare = Some(CompareState::new(2, 4));
    assert_eq!(prefetch_candidates(&s, &d), vec![2, 3, 4, 3]);
}

#[test]
fn start_folder_and_open_file() {
    assert_eq!(start_folder_of("/p/beta.jpg", true), "/p");
    assert_eq!(start_folder_of("/p", false), "/p");
    let d = listing();
    let mut s = state();
    open_file(&mut s, &d, "/p/gamma.png");
    assert_eq!(s.selected_index, 4);
    assert_eq!(s.view_mode, ViewMode::Single);
    let mut t = state();
    open_file(&mut t, &d, "/p/nothing.png");
    assert_eq!(t.view_mode, ViewMode::List);
}

#[test]
fn dropped_and_typed_paths() {
    assert!(matches!(dropped_path_action("/p", true, false), PathAction::OpenFolder(p) if p == "/p"));
    assert!(matches!(dropped_path_action("/p/a.zip", false, true), PathAction::OpenArchive(p) if p == "/p/a.zip"));
    match dropped_path_action("/p/x.png", false, true) {
        PathAction::OpenFileIn { folder, file } => {
            assert_eq!(folder, "/p");
            assert_eq!(file, "/p/x.png");
        }
        _ => panic!("file expected"),
    }
    assert!(matches!(dropped_path_action("/gone", false, false), PathAction::Nothing));
    assert!(matches!(typed_path_action("/p/x.png", false, true), PathAction::Nothing));
    assert!(matches!(typed_path_action("/p/A.Zip", false, true), PathAction::OpenArchive(_)));
    assert!(matches!(typed_path_action("/p", true, false), PathAction::OpenFolder(_)));
}

#[test]
fn rename_targets() {
    assert_eq!(rename_target_path("/p/old.png", "new.png"), "/p/new.png");
    assert_eq!(rename_target_path("old.png", "new.png"), "new.png");
    assert_eq!(rename_target_path("/old.png", "new.png"), "/new.png");
    assert_eq!(rename_target_path("/p/old.png", "/q/new.png"), "/q/new.png");
    assert_eq!(copy_job_for(&listing(), "/p/beta.jpg", "/out/").target, "/out/beta.jpg");
    assert_eq!(copy_job_for(&listing(), "/p/beta.jpg", "").target, "beta.jpg");
}

#[test]
fn copy_jobs() {
    let j = copy_job_for(&listing(), "/p/beta.jpg", "/out");
    assert_eq!(j.target, "/out/beta.jpg");
    assert!(matches!(j.source, CopySource::File(ref f) if f == "/p/beta.jpg"));
    let z = copy_job_for(&zipped_listing(), "/d/a.zip!x.png", "/out");
    // the synthetic path names the file "a.zip!x.png"
    assert_eq!(z.target, "/out/a.zip!x.png");
    match z.source {
        CopySource::Member { archive, entry } => {
            assert_eq!(archive, "/d/a.zip");
            assert_eq!(entry, "x.png");
        }
        _ => panic!("archive member expected"),
    }
}
