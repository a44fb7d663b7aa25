use riv::dir::{DirEntry, DirState};
use riv::display::{
    decode_failure_hint, delete_list_text, grid_label_text, info_lines_text, next_frame, row_label_text,
    shown_frame, status_entry_index, status_left_text, status_right_text, summary_text, window_title,
};
use riv::state::{AppState, CompareSide, CompareState, ImageFilter, SortField, ViewMode, ZoomMode};

fn entry(name: &str, is_dir: bool, size: u64) -> DirEntry {
    DirEntry { path: format!("/p/{}", name), name: name.to_string(), is_dir, size, modified: None, zip_source: None }
}

fn listing() -> DirState {
    DirState {
        entries: vec![entry("..", true, 0), entry("sub", true, 0), entry("a.png", false, 10), entry("b.gif", false, 2048)],
        image_count: 2,
        dir_count: 1,
        zip_ctx: None,
    }
}

fn state() -> AppState {
    AppState::new("/p".to_string())
}

#[test]
fn status_left_in_each_view() {
    let d = listing();
    let mut s = state();
    s.selected_index = 1;
    assert_eq!(status_left_text(&s, &d, None), " sub/");
    s.selected_index = 2;
    assert_eq!(status_left_text(&s, &d, None), " a.png");
    s.toggle_select(2);
    s.toggle_select(3);
    assert_eq!(status_left_text(&s, &d, None), " 2 selected | a.png");
    s.view_mode = ViewMode::Grid;
    s.selected_index = 1;
    assert_eq!(status_left_text(&s, &d, None), " 2 selected | sub");
    s.view_mode = ViewMode::Single;
    s.selected_index = 3;
    s.zoom_mode = ZoomMode::Original;
    assert_eq!(status_left_text(&s, &d, None), " b.gif | Original (1:1)");
    assert_eq!(status_left_text(&s, &d, Some("Copied 1 file(s)")), " Copied 1 file(s)");
    s.view_mode = ViewMode::Compare;
    let mut c = CompareState::new(2, 9);
    c.active_side = CompareSide::Right;
    s.compare = Some(c);
    assert_eq!(status_left_text(&s, &d, None), " Compare: a.png | ? (active: R) [LOCKED]");
    s.compare = None;
    assert_eq!(status_left_text(&s, &d, None), "");
    s.view_mode = ViewMode::List;
    s.selected_index = 40;
    assert_eq!(status_left_text(&s, &d, None), " (empty)");
}

#[test]
fn status_right_parts() {
    let d = listing();
    let mut s = state();
    s.selected_index = 2;
    assert_eq!(status_right_text(&s, &d, 0, None), "Name \u{25b2} | 2 images, 1 dirs | 3/4 | LIST ");
    s.sort_field = SortField::Date;
    s.sort_ascending = false;
    s.view_mode = ViewMode::Grid;
    assert_eq!(
        status_right_text(&s, &d, 3, Some((640, 480))),
        "(loading 3...) 640x480 | Date \u{25bc} | 2 images, 1 dirs | 3/4 | GRID "
    );
    s.view_mode = ViewMode::Single;
    s.filter_active = true;
    s.filtered_indices = vec![2];
    s.selected_index = 0;
    assert_eq!(status_right_text(&s, &d, 0, None), "1 matches | 1/1 | VIEW ");
    s.filtered_indices = vec![];
    s.view_mode = ViewMode::Compare;
    assert_eq!(status_right_text(&s, &d, 0, None), "0 matches | 0/0 | COMPARE ");
}

#[test]
fn status_entry_follows_active_compare_side() {
    let mut s = state();
    s.selected_index = 2;
    assert_eq!(status_entry_index(&s), 2);
    s.view_mode = ViewMode::Compare;
    let mut c = CompareState::new(1, 3);
    assert_eq!(status_entry_index(&{
        let mut t = state();
        t.view_mode = ViewMode::Compare;
        t.compare = Some(CompareState::new(1, 3));
        t
    }), 1);
    c.active_side = CompareSide::Right;
    s.compare = Some(c);
    assert_eq!(status_entry_index(&s), 3);
}

#[test]
fn window_titles() {
    assert_eq!(window_title("/home/me/pics"), "riv - pics");
    assert_eq!(window_title("/"), "riv - ");
}

#[test]
fn delete_lists() {
    let few: Vec<String> = vec!["a".into(), "b".into(), "c".into()];
    assert_eq!(delete_list_text(&few), "a, b, c");
    let five: Vec<String> = (1..=5).map(|i| format!("f{}", i)).collect();
    assert_eq!(delete_list_text(&five), "f1, f2, f3, f4, f5");
    let many: Vec<String> = (1..=7).map(|i| format!("f{}", i)).collect();
    assert_eq!(delete_list_text(&many), "f1, f2, f3, ... (7 files)");
    assert_eq!(delete_list_text(&vec![]), "");
}

#[test]
fn summaries() {
    assert_eq!(summary_text("Copied", 3, 0), "Copied 3 file(s)");
    assert_eq!(summary_text("Deleted", 2, 1), "Deleted 2, 1 failed");
}

#[test]
fn failure_hints() {
    assert_eq!(decode_failure_hint("/x/doc.PDF", false, true), Some("Install mupdf-tools for PDF support"));
    assert_eq!(decode_failure_hint("/x/doc.pdf", true, true), None);
    assert_eq!(decode_failure_hint("/x/raw.nef", true, false), Some("Install libraw-bin for RAW photo support"));
    assert_eq!(decode_failure_hint("/x/raw.nef", true, true), None);
    assert_eq!(decode_failure_hint("/x/a.png", false, false), None);
}

#[test]
fn labels() {
    assert_eq!(grid_label_text("short.png"), "short.png");
    assert_eq!(grid_label_text("exactly_18_chars.p"), "exactly_18_chars.p");
    assert_eq!(grid_label_text("a_rather_long_file_name.png"), "a_rather_long_f...");
    assert_eq!(row_label_text(&entry("sub", true, 0)), "sub/");
    assert_eq!(row_label_text(&entry("a.png", false, 0)), "a.png");
}

#[test]
fn info_panel_lines() {
    let e = entry("b.gif", false, 2048);
    assert_eq!(
        info_lines_text(&e, Some((4, 3)), ZoomMode::FitWindow, Some((1, 5)), false),
        vec!["b.gif", "4x3", "2.0 KB", "GIF", "Zoom: Fit Window", "Frame 2/5 (Paused)"]
    );
    let plain = DirEntry { path: "/p/README".to_string(), ..entry("README", false, 5) };
    assert_eq!(info_lines_text(&plain, None, ZoomMode::Custom, None, true), vec!["README", "5 B", "Zoom: Custom"]);
}

#[test]
fn frames() {
    assert_eq!(shown_frame(2, 5), 2);
    assert_eq!(shown_frame(9, 5), 4);
    assert_eq!(next_frame(3, 5), 4);
    assert_eq!(next_frame(4, 5), 0);
}

#[test]
fn enum_labels_and_cycles() {
    assert_eq!(SortField::Name.cycle(), SortField::Size);
    assert_eq!(SortField::Date.cycle(), SortField::Name);
    assert_eq!(SortField::Size.label(), "Size");
    assert_eq!(ZoomMode::Custom.cycle(), ZoomMode::FitWindow);
    assert_eq!(ZoomMode::FitHeight.cycle(), ZoomMode::Original);
    assert_eq!(ZoomMode::FitWidth.label(), "Fit Width");
    assert_eq!(ImageFilter::Nearest.label(), "Nearest (Sharp)");
    assert_eq!(ImageFilter::Linear.label(), "Bilinear (Smooth)");
    let mut f = SortField::Size;
    for _ in 0..3 {
        f = f.cycle();
    }
    assert_eq!(f, SortField::Size);
    for start in [ZoomMode::FitWindow, ZoomMode::FitWidth, ZoomMode::FitHeight, ZoomMode::Original] {
        let mut m = start;
        for _ in 0..4 {
            m = m.cycle();
        }
        assert_eq!(m, start);
    }
}

#[test]
fn selection_helpers() {
    let d = listing();
    let mut s = state();
    s.toggle_select(2);
    s.toggle_select(2);
    assert_eq!(s.multi_select_count(), 0);
    s.select_range(3, 1);
    assert_eq!(s.multi_select_count(), 3);
    assert!(s.is_multi_selected(1) && s.is_multi_selected(2) && s.is_multi_selected(3));
    s.clear_multi_select();
    assert_eq!(s.multi_select_count(), 0);
    assert_eq!(s.visible_count(&d), 4);
    s.filter_active = true;
    s.filtered_indices = vec![3];
    assert_eq!(s.visible_count(&d), 1);
    assert_eq!(s.resolved_index(), 3);
    s.clear_filter();
    assert!(!s.filter_active);
    assert_eq!(s.selected_index, 3);
    assert!(s.filtered_indices.is_empty());
}
