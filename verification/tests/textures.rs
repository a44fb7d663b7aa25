use riv::cache::{prefetch, request_decode, take_decode_result, ResultKind, TakeOutcome, TextureCache};
use riv::decode::{plan_decode, DecodePlan};
use riv::dir::{DirEntry, DirState, ZipSource};
use riv::state::{AppState, ViewMode};

fn entry(name: &str, is_dir: bool) -> DirEntry {
    DirEntry { path: format!("/p/{}", name), name: name.to_string(), is_dir, size: 0, modified: None, zip_source: None }
}

#[test]
fn new_cache_is_empty_at_generation_zero() {
    let mut c = TextureCache::new();
    assert_eq!(c.generation(), 0);
    assert_eq!(c.pending_count(), 0);
    assert_eq!(c.get_full("/a.png"), None);
    assert_eq!(c.get_thumb("/a.png"), None);
    assert_eq!(c.get_animated("/a.png"), None);
    assert_eq!(c.dimensions("/a.png"), None);
}

#[test]
fn insert_then_get_and_replace() {
    let mut c = TextureCache::new();
    c.mark_pending("/a.png".to_string(), false);
    assert!(c.is_pending("/a.png", false));
    assert!(!c.is_pending("/a.png", true));
    assert_eq!(c.insert_full("/a.png".to_string(), 7), None);
    assert!(!c.is_pending("/a.png", false));
    assert_eq!(c.get_full("/a.png"), Some(7));
    assert_eq!(c.insert_full("/a.png".to_string(), 8), Some(7));
    assert_eq!(c.get_full("/a.png"), Some(8));
}

#[test]
fn full_cache_evicts_least_recently_used_after_fifteen() {
    let mut c = TextureCache::new();
    for i in 0..15u64 {
        assert_eq!(c.insert_full(format!("/{}.png", i), i), None);
    }
    // touch the oldest so that the second oldest goes first
    assert_eq!(c.get_full("/0.png"), Some(0));
    assert_eq!(c.insert_full("/new.png".to_string(), 99), Some(1));
    assert_eq!(c.get_full("/1.png"), None);
    assert_eq!(c.get_full("/0.png"), Some(0));
    assert_eq!(c.get_full("/new.png"), Some(99));
}

#[test]
fn animated_cache_holds_five() {
    let mut c = TextureCache::new();
    for i in 0..5u64 {
        assert_eq!(c.insert_animated(format!("/{}.gif", i), i), None);
    }
    assert_eq!(c.insert_animated("/5.gif".to_string(), 5), Some(0));
    assert_eq!(c.get_animated("/0.gif"), None);
}

#[test]
fn thumbnails_and_pending_counts() {
    let mut c = TextureCache::new();
    c.mark_pending("/a.png".to_string(), true);
    c.mark_pending("/a.png".to_string(), true);
    c.mark_pending("/b.png".to_string(), false);
    assert_eq!(c.pending_count(), 2);
    c.unmark_pending("/a.png", true);
    assert_eq!(c.pending_count(), 1);
    assert_eq!(c.insert_thumb("/a.png".to_string(), 3), None);
    assert_eq!(c.get_thumb("/a.png"), Some(3));
}

#[test]
fn dimensions_are_remembered_and_replaced() {
    let mut c = TextureCache::new();
    c.set_dimensions("/a.png".to_string(), (10, 20));
    c.set_dimensions("/b.png".to_string(), (1, 2));
    c.set_dimensions("/a.png".to_string(), (30, 40));
    assert_eq!(c.dimensions("/a.png"), Some((30, 40)));
    assert_eq!(c.dimensions("/b.png"), Some((1, 2)));
}

#[test]
fn forget_drops_everything_about_a_path() {
    let mut c = TextureCache::new();
    c.insert_full("/a.png".to_string(), 1);
    c.insert_thumb("/a.png".to_string(), 2);
    c.insert_full("/b.png".to_string(), 3);
    c.set_dimensions("/a.png".to_string(), (5, 5));
    c.mark_pending("/a.png".to_string(), false);
    let mut released = c.forget("/a.png");
    released.sort();
    assert_eq!(released, vec![1, 2]);
    assert_eq!(c.get_full("/a.png"), None);
    assert_eq!(c.get_thumb("/a.png"), None);
    assert_eq!(c.dimensions("/a.png"), None);
    assert!(!c.is_pending("/a.png", false));
    assert_eq!(c.get_full("/b.png"), Some(3));
}

#[test]
fn clear_all_starts_a_new_generation() {
    let mut c = TextureCache::new();
    c.insert_full("/a.png".to_string(), 1);
    c.mark_pending("/b.png".to_string(), true);
    c.set_dimensions("/a.png".to_string(), (5, 5));
    c.clear_all();
    assert_eq!(c.generation(), 1);
    assert_eq!(c.get_full("/a.png"), None);
    assert_eq!(c.pending_count(), 0);
    assert_eq!(c.dimensions("/a.png"), None);
}

#[test]
fn clear_full_and_animated_keep_thumbnails() {
    let mut c = TextureCache::new();
    c.insert_full("/a.png".to_string(), 1);
    c.insert_thumb("/a.png".to_string(), 2);
    c.insert_animated("/a.gif".to_string(), 3);
    c.clear_full();
    c.clear_animated();
    assert_eq!(c.get_full("/a.png"), None);
    assert_eq!(c.get_animated("/a.gif"), None);
    assert_eq!(c.get_thumb("/a.png"), Some(2));
    assert_eq!(c.generation(), 0);
}

#[test]
fn request_decode_once_per_path() {
    let mut c = TextureCache::new();
    let mut e = entry("a.png", false);
    e.zip_source = Some(ZipSource { archive_path: "/z.zip".to_string(), entry_name: "a.png".to_string() });
    let r = request_decode(&mut c, &e, true, 128).unwrap();
    assert_eq!(r.path, "/p/a.png");
    assert!(r.is_thumbnail);
    assert_eq!(r.generation, 0);
    assert_eq!(r.thumb_size, 128);
    assert_eq!(r.zip_source.as_ref().unwrap().archive_path, "/z.zip");
    assert!(c.is_pending("/p/a.png", true));
    assert!(request_decode(&mut c, &e, true, 128).is_none());
    assert!(request_decode(&mut c, &e, false, 128).is_some());
}

#[test]
fn prefetch_asks_for_uncached_neighbours() {
    let d = DirState {
        entries: vec![entry("sub", true), entry("a.png", false), entry("b.png", false), entry("c.png", false)],
        image_count: 3,
        dir_count: 1,
        zip_ctx: None,
    };
    let mut s = AppState::new("/p".to_string());
    s.selected_index = 2;
    let mut c = TextureCache::new();
    c.insert_full("/p/c.png".to_string(), 1);
    let reqs = prefetch(&s, &d, &mut c, 160);
    let paths: Vec<&str> = reqs.iter().map(|r| r.path.as_str()).collect();
    assert_eq!(paths, vec!["/p/b.png", "/p/a.png"]);
    assert!(reqs.iter().all(|r| !r.is_thumbnail && r.thumb_size == 160));
    assert!(c.is_pending("/p/a.png", false));
    // asking again gives nothing: both are being decoded
    assert!(prefetch(&s, &d, &mut c, 160).is_empty());
    s.view_mode = ViewMode::Single;
    assert!(prefetch(&s, &d, &mut c, 160).is_empty());
}

#[test]
fn requests_made_before_clear_all_are_skipped() {
    let mut c = TextureCache::new();
    let e = entry("a.png", false);
    let old = request_decode(&mut c, &e, false, 160).unwrap();
    c.clear_all();
    assert_eq!(plan_decode(&old, c.generation()), DecodePlan::Skip);
    let new = request_decode(&mut c, &e, false, 160).unwrap();
    assert_ne!(plan_decode(&new, c.generation()), DecodePlan::Skip);
}

#[test]
fn stale_decode_results_change_nothing() {
    let mut c = TextureCache::new();
    c.mark_pending("/a.png".to_string(), false);
    c.clear_all();
    c.mark_pending("/a.png".to_string(), false);
    let kind = ResultKind::Still { size: (4, 3), texture: 9 };
    let r = take_decode_result(&mut c, 0, "/a.png".to_string(), false, kind);
    assert!(matches!(r, TakeOutcome::Stale));
    assert!(c.is_pending("/a.png", false));
    assert_eq!(c.get_full("/a.png"), None);
    assert_eq!(c.dimensions("/a.png"), None);
}

#[test]
fn current_decode_results_go_to_their_cache() {
    let mut c = TextureCache::new();
    c.mark_pending("/t.png".to_string(), true);
    c.mark_pending("/f.png".to_string(), false);
    c.mark_pending("/g.gif".to_string(), false);
    let r = take_decode_result(&mut c, 0, "/t.png".to_string(), true, ResultKind::Still { size: (8, 6), texture: 1 });
    assert!(matches!(r, TakeOutcome::Kept { released: None }));
    assert_eq!(c.get_thumb("/t.png"), Some(1));
    assert_eq!(c.get_full("/t.png"), None);
    assert!(!c.is_pending("/t.png", true));
    assert_eq!(c.dimensions("/t.png"), Some((8, 6)));

    let r = take_decode_result(&mut c, 0, "/f.png".to_string(), false, ResultKind::Still { size: (80, 60), texture: 2 });
    assert!(matches!(r, TakeOutcome::Kept { released: None }));
    assert_eq!(c.get_full("/f.png"), Some(2));
    assert!(!c.is_pending("/f.png", false));
    let r = take_decode_result(&mut c, 0, "/f.png".to_string(), false, ResultKind::Still { size: (80, 60), texture: 3 });
    assert!(matches!(r, TakeOutcome::Kept { released: Some(2) }));
    assert_eq!(c.get_full("/f.png"), Some(3));

    let r = take_decode_result(&mut c, 0, "/g.gif".to_string(), false, ResultKind::Animated { size: Some((5, 7)), texture: 4 });
    assert!(matches!(r, TakeOutcome::Kept { released: None }));
    assert_eq!(c.get_animated("/g.gif"), Some(4));
    assert!(!c.is_pending("/g.gif", false));
    assert_eq!(c.dimensions("/g.gif"), Some((5, 7)));
    assert_eq!(c.pending_count(), 0);
}

#[test]
fn failed_decode_is_no_longer_pending() {
    let mut c = TextureCache::new();
    c.mark_pending("/x.cr2".to_string(), true);
    c.mark_pending("/x.cr2".to_string(), false);
    let r = take_decode_result(&mut c, 0, "/x.cr2".to_string(), true, ResultKind::Failed);
    assert!(matches!(r, TakeOutcome::Failed));
    assert!(!c.is_pending("/x.cr2", true));
    assert!(c.is_pending("/x.cr2", false));
    assert_eq!(c.get_thumb("/x.cr2"), None);
}
