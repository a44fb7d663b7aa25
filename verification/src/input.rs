//! Keyboard and pointer handling: from the keys pressed in a frame to the new
//! browser state and the actions the application carries out.
use std::collections::BTreeSet;
use vstd::prelude::*;
use vstd::std_specs::iter::IteratorSpec;

use crate::decode::{ascii_ext, lower_ext};
use crate::dir::{views, DirState, EntryView};
use crate::state::{
    spec_min, AppState, BrowseMode, CompareSide, CompareState, CompareView, EditAction, UiView, new_compare,
    ViewMode, ViewOp, ZoomMode, ZoomPan, ZoomPanView,
};
use crate::text::{chars_equal, chars_of, extension_of};

verus! {

/// The keys the viewer reacts to.
#[derive(Debug, Clone, Copy, PartialEq, Eq, Structural)]
pub enum Key {
    Escape,
    Enter,
    ArrowDown,
    ArrowUp,
    ArrowLeft,
    ArrowRight,
    Q,
    Backspace,
    L,
    Slash,
    Space,
    H,
    J,
    K,
    I,
    E,
    G,
    Y,
    Delete,
    F,
    Num0,
    Equals,
    Plus,
    Minus,
    Tab,
    Home,
    End,
    PageDown,
    PageUp,
    S,
    F2,
    C,
}

/// What the user did in one frame, as the user interface measured it.
pub struct FrameInput {
    /// Keys pressed this frame (repeats included).
    pub pressed: Vec<Key>,
    /// Keys pressed this frame without the command key held.
    pub plain: Vec<Key>,
    /// The command (Ctrl) key is held.
    pub command: bool,
    /// The shift key is held.
    pub shift: bool,
    /// The wheel moved this frame.
    pub scrolled: bool,
    /// Wheel movement in list rows (30 points a row), rounded.
    pub scroll_lines: i32,
    /// Wheel movement in grid rows (50 points a row), rounded.
    pub scroll_rows: i32,
    /// The pointer is over the preview pane.
    pub pointer_in_preview: bool,
    /// A pointer button is held.
    pub pointer_down: bool,
    /// The pointer position is known.
    pub pointer_known: bool,
    /// Columns of the grid as last drawn.
    pub grid_columns: usize,
}

/// The frame input as plain values.
pub struct InputView {
    pub pressed: Seq<Key>,
    pub plain: Seq<Key>,
    pub command: bool,
    pub shift: bool,
    pub scrolled: bool,
    pub scroll_lines: i32,
    pub scroll_rows: i32,
    pub pointer_in_preview: bool,
    pub pointer_down: bool,
    pub pointer_known: bool,
    pub grid_columns: usize,
}

impl View for FrameInput {
    type V = InputView;

    open spec fn view(&self) -> InputView {
        InputView {
            pressed: self.pressed@,
            plain: self.plain@,
            command: self.command,
            shift: self.shift,
            scrolled: self.scrolled,
            scroll_lines: self.scroll_lines,
            scroll_rows: self.scroll_rows,
            pointer_in_preview: self.pointer_in_preview,
            pointer_down: self.pointer_down,
            pointer_known: self.pointer_known,
            grid_columns: self.grid_columns,
        }
    }
}

/// What the application is asked to do after the keys were handled.
#[derive(Debug, Clone, Copy, PartialEq, Eq, Structural)]
pub struct InputAction {
    pub enter_directory: Option<usize>,
    pub go_up: bool,
    pub quit: bool,
    pub focus_path_bar: bool,
    pub sort_changed: bool,
    pub start_filter: bool,
    /// A key taken out of the frame's events so that no text field sees it.
    pub consumed: Option<Key>,
}

pub open spec fn no_action() -> InputAction {
    InputAction {
        enter_directory: None,
        go_up: false,
        quit: false,
        focus_path_bar: false,
        sort_changed: false,
        start_filter: false,
        consumed: None,
    }
}

pub open spec fn pk(i: InputView, k: Key) -> bool {
    i.pressed.contains(k)
}

// ---------------------------------------------------------------------------
// Moving between images
// ---------------------------------------------------------------------------

/// The first image (non-folder) at or after `j`.
pub open spec fn scan_fwd(es: Seq<EntryView>, j: int) -> Option<int>
    decreases es.len() - j,
{
    if j < 0 || j >= es.len() {
        None
    } else if !es[j].is_dir {
        Some(j)
    } else {
        scan_fwd(es, j + 1)
    }
}

/// The last image at or before `j`; `None` when `j` is past the end.
pub open spec fn scan_back(es: Seq<EntryView>, j: int) -> Option<int>
    decreases j + 1,
{
    if j < 0 || j >= es.len() {
        None
    } else if !es[j].is_dir {
        Some(j)
    } else {
        scan_back(es, j - 1)
    }
}

/// The image after (`forward`) or before the one at `idx`.
pub open spec fn step_image(es: Seq<EntryView>, idx: int, forward: bool) -> Option<int> {
    if forward {
        scan_fwd(es, idx + 1)
    } else {
        scan_back(es, idx - 1)
    }
}

pub(crate) proof fn lemma_scan_fwd(es: Seq<EntryView>, j: int)
    requires
        0 <= j,
    ensures
        scan_fwd(es, j) matches Some(k) ==> j <= k < es.len() && !es[k].is_dir && forall|m: int|
            j <= m < k ==> es[m].is_dir,
        scan_fwd(es, j) is None ==> forall|m: int| j <= m < es.len() ==> es[m].is_dir,
    decreases es.len() - j,
{
    if j < es.len() && es[j].is_dir {
        lemma_scan_fwd(es, j + 1);
    }
}

proof fn lemma_scan_back(es: Seq<EntryView>, j: int)
    requires
        j < es.len(),
    ensures
        scan_back(es, j) matches Some(k) ==> 0 <= k <= j && !es[k].is_dir && forall|m: int|
            k < m <= j ==> es[m].is_dir,
        scan_back(es, j) is None ==> forall|m: int| 0 <= m <= j ==> es[m].is_dir,
    decreases j + 1,
{
    if 0 <= j && es[j].is_dir {
        lemma_scan_back(es, j - 1);
    }
}

pub(crate) fn next_image(dir: &DirState, from: usize) -> (r: Option<usize>)
    ensures
        r matches Some(k) ==> scan_fwd(views(dir.entries@), from as int) == Some(k as int),
        r is None ==> scan_fwd(views(dir.entries@), from as int) is None,
{
    let ghost es = views(dir.entries@);
    let mut j: usize = from;
    while j < dir.entries.len()
        invariant
            from <= j,
            es == views(dir.entries@),
            scan_fwd(es, j as int) == scan_fwd(es, from as int),
        decreases dir.entries@.len() - j,
    {
        if !dir.entries[j].is_dir {
            return Some(j);
        }
        j = j + 1;
    }
    None
}

/// The image before entry `from` (exclusive), scanning down from `from - 1`.
fn prev_image(dir: &DirState, from: usize) -> (r: Option<usize>)
    ensures
        r matches Some(k) ==> scan_back(views(dir.entries@), from - 1) == Some(k as int),
        r is None ==> scan_back(views(dir.entries@), from - 1) is None,
{
    let ghost es = views(dir.entries@);
    if from == 0 || from - 1 >= dir.entries.len() {
        return None;
    }
    let mut j: usize = from - 1;
    loop
        invariant
            j < dir.entries@.len(),
            es == views(dir.entries@),
            scan_back(es, j as int) == scan_back(es, from - 1),
        decreases j,
    {
        if !dir.entries[j].is_dir {
            return Some(j);
        }
        if j == 0 {
            assert(scan_back(es, -1) is None);
            return None;
        }
        j = j - 1;
    }
}

fn step_image_exec(dir: &DirState, idx: usize, forward: bool) -> (r: Option<usize>)
    ensures
        r matches Some(k) ==> step_image(views(dir.entries@), idx as int, forward) == Some(k as int),
        r is None ==> step_image(views(dir.entries@), idx as int, forward) is None,
{
    if forward {
        if idx >= dir.entries.len() {
            return None;
        }
        next_image(dir, idx + 1)
    } else {
        prev_image(dir, idx)
    }
}

/// After moving the selection to the next or previous image in single view:
/// zoom reset, animation restarted from its first frame.
pub open spec fn navigate_single_spec(u: UiView, es: Seq<EntryView>, forward: bool) -> UiView {
    match step_image(es, u.selected_index as int, forward) {
        Some(k) => {
            let r = UiView { selected_index: k as usize, ..u }.reset_zoom();
            UiView {
                animation_frame: 0,
                animation_playing: true,
                pending_view: r.pending_view.push(ViewOp::RestartAnimation),
                ..r
            }
        },
        None => u,
    }
}

/// Select the next (`forward`) or previous image of the listing, skipping
/// folders; nothing happens when there is none.
pub fn navigate_single(state: &mut AppState, dir: &DirState, forward: bool)
    ensures
        final(state)@ == navigate_single_spec(old(state)@, views(dir.entries@), forward),
{
    match step_image_exec(dir, state.selected_index, forward) {
        Some(k) => {
            state.selected_index = k;
            state.reset_zoom();
            state.animation_frame = 0;
            state.animation_playing = true;
            state.pending_view.push(ViewOp::RestartAnimation);
        },
        None => {},
    }
}

/// After moving the active compare side to the next or previous image.
pub open spec fn navigate_compare_side_spec(c: CompareView, es: Seq<EntryView>, forward: bool) -> CompareView {
    let idx = match c.active_side {
        CompareSide::Left => c.left_index,
        CompareSide::Right => c.right_index,
    };
    match step_image(es, idx as int, forward) {
        Some(k) => match c.active_side {
            CompareSide::Left => CompareView { left_index: k as usize, ..c },
            CompareSide::Right => CompareView { right_index: k as usize, ..c },
        },
        None => c,
    }
}

/// Move the active side of the compare view to the next or previous image.
pub fn navigate_compare_side(pair: &mut CompareState, dir: &DirState, forward: bool)
    ensures
        final(pair)@ == navigate_compare_side_spec(old(pair)@, views(dir.entries@), forward),
{
    let idx = match pair.active_side {
        CompareSide::Left => pair.left_index,
        CompareSide::Right => pair.right_index,
    };
    match step_image_exec(dir, idx, forward) {
        Some(k) => match pair.active_side {
            CompareSide::Left => {
                pair.left_index = k;
            },
            CompareSide::Right => {
                pair.right_index = k;
            },
        },
        None => {},
    }
}

/// The browse mode to come back to from the current view.
pub open spec fn browse_of(v: ViewMode) -> BrowseMode {
    if v == ViewMode::List {
        BrowseMode::List
    } else {
        BrowseMode::Grid
    }
}

/// The smallest member of a set of indices.
#[verifier::opaque]
pub open spec fn set_least(s: Set<usize>) -> usize {
    choose|x: usize| s.contains(x) && forall|y: usize| s.contains(y) ==> x <= y
}

/// The largest member of a set of indices.
#[verifier::opaque]
pub open spec fn set_greatest(s: Set<usize>) -> usize {
    choose|x: usize| s.contains(x) && forall|y: usize| s.contains(y) ==> y <= x
}

/// Entering the compare view from a browse view: with exactly two entries
/// multi-selected, those two (lower index left) when both are images; else
/// the selected image and the next image after it, if both exist.
pub open spec fn enter_compare_spec(u: UiView, es: Seq<EntryView>) -> UiView {
    if u.multi_selected.len() == 2 {
        compare_pair_spec(u, es)
    } else {
        compare_next_spec(u, es)
    }
}

/// Comparing the two multi-selected entries, when both are images.
pub open spec fn compare_pair_spec(u: UiView, es: Seq<EntryView>) -> UiView {
    let left = set_least(u.multi_selected);
    let right = set_greatest(u.multi_selected);
    if !es[left as int].is_dir && !es[right as int].is_dir {
        open_compare_spec(u, left, right)
    } else {
        u
    }
}

/// Comparing the selected image with the next image after it.
pub open spec fn compare_next_spec(u: UiView, es: Seq<EntryView>) -> UiView {
    let abs = u.resolved();
    if abs >= es.len() || es[abs as int].is_dir {
        u
    } else {
        match scan_fwd(es, abs + 1) {
            Some(right) => open_compare_spec(u, abs, right as usize),
            None => u,
        }
    }
}

/// Entering the compare view indexes the listing with the two multi-selected
/// entries; they must lie in it.
pub open spec fn compare_pair_in_range(u: UiView, n: nat) -> bool {
    u.multi_selected.len() == 2 ==> forall|x: usize| u.multi_selected.contains(x) ==> x < n
}

/// Whether this frame's C key reaches the multi-selection: C without the
/// command key, in the list or grid view of a listing that is not empty,
/// with the listing (not the preview) focused, no dialog, path bar or filter
/// taking the keys, and neither Q nor / pressed in the same frame.
pub open spec fn compare_key_used(u: UiView, i: InputView, n: nat) -> bool {
    &&& pk(i, Key::C) && !i.command
    &&& u.dialog is None && !u.path_bar_focused && !u.filter_active
    &&& (u.view_mode == ViewMode::List || u.view_mode == ViewMode::Grid)
    &&& !u.preview_focused
    &&& n > 0
    &&& !pk(i, Key::Q) && !pk(i, Key::Slash)
}

/// The two members of the multi-selection, in increasing order.
fn selected_pair(state: &AppState) -> (r: (usize, usize))
    requires
        state.multi_selected@.len() == 2,
    ensures
        r.0 == set_least(state.multi_selected@),
        r.1 == set_greatest(state.multi_selected@),
        r.0 < r.1,
        state.multi_selected@.contains(r.0),
        state.multi_selected@.contains(r.1),
{
    broadcast use vstd::std_specs::btree::group_btree_axioms, vstd::laws_cmp::group_laws_cmp;
    let mut v: Vec<usize> = Vec::new();
    for x in it: state.multi_selected.iter()
        invariant
            v@ == it.seq().take(it.index()).map_values(|p: &usize| *p),
    {
        v.push(*x);
    }
    let ghost keys = state.multi_selected.iter().remaining();
    let ghost s = state.multi_selected@;
    proof {
        assert(keys.len() == 2);
        assert(v@ =~= keys.unref());
        assert(keys.unref().to_set() == s);
        assert(s.contains(v@[0]));
        assert(s.contains(v@[1]));
        assert(v@[0] != v@[1]) by {
            assert(keys.no_duplicates());
        }
        assert forall|y: usize| s.contains(y) implies y == v@[0] || y == v@[1] by {
            assert(v@.to_set().contains(y));
        }
    }
    let (lo, hi) = if v[0] < v[1] { (v[0], v[1]) } else { (v[1], v[0]) };
    proof {
        assert(s.contains(lo) && forall|y: usize| s.contains(y) ==> lo <= y);
        assert(s.contains(hi) && forall|y: usize| s.contains(y) ==> y <= hi);
        reveal(set_least);
        reveal(set_greatest);
        let l = set_least(s);
        let g = set_greatest(s);
        assert(s.contains(l) && forall|y: usize| s.contains(y) ==> l <= y);
        assert(s.contains(g) && forall|y: usize| s.contains(y) ==> y <= g);
    }
    (lo, hi)
}

/// The browser after switching to the compare view of `left` and `right`.
pub open spec fn open_compare_spec(u: UiView, left: usize, right: usize) -> UiView {
    UiView {
        previous_browse_mode: browse_of(u.view_mode),
        compare: Some(new_compare(left, right)),
        view_mode: ViewMode::Compare,
        ..u
    }
}

pub(crate) fn open_compare(state: &mut AppState, left: usize, right: usize)
    ensures
        final(state)@ == open_compare_spec(old(state)@, left, right),
{
    state.previous_browse_mode = if state.view_mode == ViewMode::List {
        BrowseMode::List
    } else {
        BrowseMode::Grid
    };
    state.compare = Some(CompareState::new(left, right));
    state.view_mode = ViewMode::Compare;
}

pub(crate) fn compare_pair(state: &mut AppState, dir: &DirState)
    requires
        old(state).multi_selected@.len() == 2,
        compare_pair_in_range(old(state)@, dir.entries@.len()),
    ensures
        final(state)@ == compare_pair_spec(old(state)@, views(dir.entries@)),
{
    let (left, right) = selected_pair(state);
    assert(left < dir.entries@.len() && right < dir.entries@.len());
    let a = dir.entries[left].is_dir;
    let b = dir.entries[right].is_dir;
    assert(views(dir.entries@)[left as int].is_dir == a);
    assert(views(dir.entries@)[right as int].is_dir == b);
    if !a && !b {
        open_compare(state, left, right);
    }
}

fn compare_next(state: &mut AppState, dir: &DirState)
    ensures
        final(state)@ == compare_next_spec(old(state)@, views(dir.entries@)),
{
    let abs = state.resolved_index();
    if abs >= dir.entries.len() || dir.entries[abs].is_dir {
        return;
    }
    match next_image(dir, abs + 1) {
        Some(right) => {
            open_compare(state, abs, right);
        },
        None => {},
    }
}

/// Switch to the compare view from a browse view (see `enter_compare_spec`).
pub fn enter_compare(state: &mut AppState, dir: &DirState)
    requires
        compare_pair_in_range(old(state)@, dir.entries@.len()),
    ensures
        final(state)@ == enter_compare_spec(old(state)@, views(dir.entries@)),
{
    if state.multi_select_count() == 2 {
        compare_pair(state, dir);
    } else {
        compare_next(state, dir);
    }
}


// ---------------------------------------------------------------------------
// One frame of keys: the model
// ---------------------------------------------------------------------------

/// The key was pressed with no modifier held (what `consume_key` takes).
pub open spec fn plain_key(i: InputView, k: Key) -> bool {
    i.plain.contains(k)
}

/// Nothing to do but take `k` out of the frame's events.
pub open spec fn consumed(k: Key) -> InputAction {
    InputAction { consumed: Some(k), ..no_action() }
}

pub open spec fn toggle_info(u: UiView) -> UiView {
    UiView { show_info_overlay: !u.show_info_overlay, ..u }
}

pub open spec fn toggle_meta(u: UiView) -> UiView {
    UiView { show_metadata_overlay: !u.show_metadata_overlay, ..u }
}

pub open spec fn with_edit(u: UiView, a: EditAction) -> UiView {
    UiView { pending_edit_action: Some(a), ..u }
}

pub open spec fn with_view_op(u: UiView, op: ViewOp) -> UiView {
    UiView { pending_view: u.pending_view.push(op), ..u }
}

/// The F key: next zoom mode, pan back to zero.
pub open spec fn cycle_zoom(u: UiView) -> UiView {
    UiView { zoom_mode: u.zoom_mode.spec_cycle(), pending_view: u.pending_view.push(ViewOp::ResetPan), ..u }
}

/// A zoom by a factor: the mode becomes custom.
pub open spec fn custom_zoom(u: UiView, op: ViewOp) -> UiView {
    UiView { zoom_mode: ZoomMode::Custom, pending_view: u.pending_view.push(op), ..u }
}

pub open spec fn scrolled_to(u: UiView) -> UiView {
    UiView { scroll_to_selected: true, ..u }
}

pub open spec fn select_row(u: UiView, k: int) -> UiView {
    UiView { selected_index: k as usize, ..u }
}

/// The view of a browse mode.
pub open spec fn view_of(b: BrowseMode) -> ViewMode {
    match b {
        BrowseMode::List => ViewMode::List,
        BrowseMode::Grid => ViewMode::Grid,
    }
}

/// Show the selected image alone, coming back to `back` later.
pub open spec fn open_single(u: UiView, back: BrowseMode) -> UiView {
    UiView { previous_browse_mode: back, view_mode: ViewMode::Single, ..u }.reset_zoom()
}

/// E, G (without shift), Y and Delete, in that order.
pub open spec fn edit_keys(u: UiView, i: InputView) -> UiView {
    let u1 = if pk(i, Key::E) { toggle_meta(u) } else { u };
    let u2 = if pk(i, Key::G) && !i.shift { with_edit(u1, EditAction::OpenInGimp) } else { u1 };
    let u3 = if pk(i, Key::Y) { with_edit(u2, EditAction::CopyPath) } else { u2 };
    if pk(i, Key::Delete) { with_edit(u3, EditAction::Delete) } else { u3 }
}

/// F and 0.
pub open spec fn fit_keys(u: UiView, i: InputView) -> UiView {
    let u1 = if pk(i, Key::F) { cycle_zoom(u) } else { u };
    if pk(i, Key::Num0) { u1.reset_zoom() } else { u1 }
}

/// = or + zooms in, - zooms out.
pub open spec fn step_zoom_keys(u: UiView, i: InputView) -> UiView {
    let u1 = if pk(i, Key::Equals) || pk(i, Key::Plus) { custom_zoom(u, ViewOp::ZoomIn) } else { u };
    if pk(i, Key::Minus) { custom_zoom(u1, ViewOp::ZoomOut) } else { u1 }
}

/// A held pointer pans (when its position is known); a released one ends the drag.
pub open spec fn drag_step(u: UiView, i: InputView) -> UiView {
    if i.pointer_down {
        if i.pointer_known { with_view_op(u, ViewOp::Drag) } else { u }
    } else {
        with_view_op(u, ViewOp::DragEnd)
    }
}

pub open spec fn inc_if(c: bool, s: int, total: int) -> int {
    if c && s + 1 < total { s + 1 } else { s }
}

pub open spec fn dec_if(c: bool, s: int) -> int {
    if c && s > 0 { s - 1 } else { s }
}

pub open spec fn clamp(v: int, lo: int, hi: int) -> int {
    if v < lo { lo } else if v > hi { hi } else { v }
}

/// Home, End, PageDown and PageUp, a page being `page` rows.
pub open spec fn page_keys(s3: int, i: InputView, total: int, page: int) -> int {
    let s4 = if pk(i, Key::Home) { 0 } else { s3 };
    let s5 = if pk(i, Key::End) { total - 1 } else { s4 };
    let s6 = if pk(i, Key::PageDown) { clamp(s5 + page, s5 + page, total - 1) } else { s5 };
    if pk(i, Key::PageUp) { clamp(s6 - page, 0, s6 - page) } else { s6 }
}

/// The arrows (or j and k) and space in the list.
pub open spec fn line_moves(s0: int, i: InputView, total: int) -> int {
    let s1 = inc_if(pk(i, Key::ArrowDown) || pk(i, Key::J), s0, total);
    let s2 = dec_if(pk(i, Key::ArrowUp) || pk(i, Key::K), s1);
    inc_if(pk(i, Key::Space), s2, total)
}

/// The arrows (or h, j, k, l) and space in a grid of `c` columns.
pub open spec fn cell_moves(s0: int, i: InputView, total: int, c: int) -> int {
    let s1 = if (pk(i, Key::ArrowDown) || pk(i, Key::J)) && s0 + c < total { s0 + c } else { s0 };
    let s2 = if (pk(i, Key::ArrowUp) || pk(i, Key::K)) && s1 >= c { s1 - c } else { s1 };
    let s3 = inc_if(pk(i, Key::ArrowRight) || pk(i, Key::L), s2, total);
    let s4 = dec_if(pk(i, Key::ArrowLeft) || pk(i, Key::H), s3);
    inc_if(pk(i, Key::Space), s4, total)
}

/// The selected row after the list's movement keys (a page is 30 rows).
pub open spec fn list_row(s0: int, i: InputView, total: int) -> int {
    page_keys(line_moves(s0, i, total), i, total, 30)
}

/// The selected cell after the grid's movement keys, with `c` columns (a
/// page is five rows).
pub open spec fn grid_row(s0: int, i: InputView, total: int, c: int) -> int {
    page_keys(cell_moves(s0, i, total, c), i, total, 5 * c)
}

/// The wheel moves the selection by `delta` rows (up for positive), unless
/// the pointer is over the preview; a move resets zoom and multi-selection.
pub open spec fn wheel_step(u: UiView, i: InputView, total: int, delta: int) -> UiView {
    if i.scrolled && !i.pointer_in_preview {
        let k = clamp(u.selected_index - delta, 0, total - 1);
        if k != u.selected_index {
            scrolled_to(select_row(u, k)).reset_zoom().clear_multi()
        } else {
            u
        }
    } else {
        u
    }
}

/// Enter on the selected entry: a folder is entered, an image shown alone.
pub open spec fn enter_key(u: UiView, es: Seq<EntryView>, back: BrowseMode) -> (UiView, Option<usize>) {
    let abs = u.resolved();
    if abs < es.len() {
        if es[abs as int].is_dir {
            (u, Some(abs))
        } else {
            (open_single(u, back), None)
        }
    } else {
        (u, None)
    }
}

/// S cycles the sort field; shift-S flips the direction.
pub open spec fn sort_key(u: UiView, i: InputView) -> UiView {
    if pk(i, Key::S) {
        if i.shift {
            UiView { sort_ascending: !u.sort_ascending, ..u }
        } else {
            UiView { sort_field: u.sort_field.spec_cycle(), ..u }
        }
    } else {
        u
    }
}

/// Sorting, zoom and edit keys of the list and grid views.
pub open spec fn browse_keys(u: UiView, i: InputView) -> UiView {
    let u6 = step_zoom_keys(fit_keys(sort_key(u, i), i), i);
    let u7 = edit_keys(u6, i);
    if pk(i, Key::F2) { with_edit(u7, EditAction::Rename) } else { u7 }
}

/// Enter, then Tab (switch to the `other` browse view).
pub open spec fn enter_tab(
    u: UiView,
    i: InputView,
    es: Seq<EntryView>,
    back: BrowseMode,
    other: ViewMode,
) -> (UiView, Option<usize>) {
    let (u3, enter) = if pk(i, Key::Enter) { enter_key(u, es, back) } else { (u, None) };
    let u4 = if pk(i, Key::Tab) { scrolled_to(UiView { view_mode: other, ..u3 }) } else { u3 };
    (u4, enter)
}

/// Everything after the movement keys in the list and grid views.
pub open spec fn browse_tail(
    u: UiView,
    i: InputView,
    es: Seq<EntryView>,
    back: BrowseMode,
    other: ViewMode,
    prev: usize,
) -> (UiView, InputAction) {
    let (u4, enter) = enter_tab(u, i, es, back, other);
    let u8 = browse_keys(u4, i);
    let u9 = if pk(i, Key::C) && !i.command { enter_compare_spec(u8, es) } else { u8 };
    let u10 = if u9.selected_index != prev { scrolled_to(u9.reset_zoom()).clear_multi() } else { u9 };
    (
        u10,
        InputAction {
            enter_directory: enter,
            go_up: pk(i, Key::Backspace),
            sort_changed: pk(i, Key::S),
            ..no_action()
        },
    )
}

/// The list view.
pub open spec fn list_spec(u: UiView, i: InputView, es: Seq<EntryView>, total: int) -> (UiView, InputAction) {
    let u1 = select_row(u, list_row(u.selected_index as int, i, total));
    let u2 = wheel_step(u1, i, total, i.scroll_lines as int);
    browse_tail(u2, i, es, BrowseMode::List, ViewMode::Grid, u.selected_index)
}

/// The grid view, `c` columns wide.
pub open spec fn grid_spec(u: UiView, i: InputView, es: Seq<EntryView>, total: int) -> (UiView, InputAction) {
    let c = i.grid_columns as int;
    let u1 = select_row(u, grid_row(u.selected_index as int, i, total, c));
    let u2 = wheel_step(u1, i, total, i.scroll_rows * c);
    browse_tail(u2, i, es, BrowseMode::Grid, ViewMode::List, u.selected_index)
}

/// The keys of the focused preview pane, before Tab: the first of Escape,
/// next, previous, Enter, I, E, G, Y, Delete, F and 0 that was pressed, or
/// else the wheel over the pane, the zoom keys and the pointer.
pub open spec fn preview_keys(u: UiView, i: InputView, es: Seq<EntryView>) -> UiView {
    if pk(i, Key::Escape) {
        UiView { preview_focused: false, ..u }
    } else if pk(i, Key::ArrowRight) || pk(i, Key::L) || pk(i, Key::Space) {
        scrolled_to(navigate_single_spec(u, es, true))
    } else if pk(i, Key::ArrowLeft) || pk(i, Key::H) {
        scrolled_to(navigate_single_spec(u, es, false))
    } else if pk(i, Key::Enter) {
        let abs = u.resolved();
        if abs < es.len() && !es[abs as int].is_dir {
            open_single(u, browse_of(u.view_mode))
        } else {
            u
        }
    } else if pk(i, Key::I) {
        toggle_info(u)
    } else if pk(i, Key::E) {
        toggle_meta(u)
    } else if pk(i, Key::G) && !i.shift {
        with_edit(u, EditAction::OpenInGimp)
    } else if pk(i, Key::Y) {
        with_edit(u, EditAction::CopyPath)
    } else if pk(i, Key::Delete) {
        with_edit(u, EditAction::Delete)
    } else if pk(i, Key::F) {
        cycle_zoom(u)
    } else if pk(i, Key::Num0) {
        u.reset_zoom()
    } else {
        let a = if i.scrolled && i.pointer_in_preview { custom_zoom(u, ViewOp::ScrollZoom) } else { u };
        drag_step(step_zoom_keys(a, i), i)
    }
}

/// Keys while the preview pane of a browse view has the focus.
pub open spec fn preview_spec(u: UiView, i: InputView, es: Seq<EntryView>) -> UiView {
    let u1 = preview_keys(u, i, es);
    if pk(i, Key::Tab) {
        let other = if u1.view_mode == ViewMode::List { ViewMode::Grid } else { ViewMode::List };
        scrolled_to(UiView { view_mode: other, ..u1 })
    } else {
        u1
    }
}

/// Is entry `abs` a GIF, by its extension in any ASCII case?
pub open spec fn is_gif_entry(es: Seq<EntryView>, abs: usize) -> bool {
    abs < es.len() && ascii_ext(es[abs as int].path) == Some("gif"@)
}

/// C in the single view: compare the shown image with the next image.
pub open spec fn single_compare(u: UiView, es: Seq<EntryView>) -> UiView {
    let abs = u.resolved();
    match scan_fwd(es, abs + 1) {
        Some(right) => UiView { compare: Some(new_compare(abs, right as usize)), view_mode: ViewMode::Compare, ..u },
        None => u,
    }
}

/// Home and End in the single view: the first or last image.
pub open spec fn jump_to(u: UiView, k: Option<int>) -> UiView {
    match k {
        Some(k) => select_row(u, k).reset_zoom(),
        None => u,
    }
}

/// Escape or Q, I, the edit keys and C in the single view.
pub open spec fn single_top(u: UiView, i: InputView, es: Seq<EntryView>) -> UiView {
    let u1 = if pk(i, Key::Escape) || pk(i, Key::Q) {
        scrolled_to(UiView { view_mode: view_of(u.previous_browse_mode), ..u })
    } else {
        u
    };
    let u2 = if pk(i, Key::I) { toggle_info(u1) } else { u1 };
    let u3 = edit_keys(u2, i);
    if pk(i, Key::C) && !i.command { single_compare(u3, es) } else { u3 }
}

/// Space (play or pause a GIF, else next image), next, previous, Home and
/// End in the single view.
pub open spec fn single_moves(u4: UiView, i: InputView, es: Seq<EntryView>) -> UiView {
    let u5 = space_or_next(u4, i, es);
    let u6 = if pk(i, Key::ArrowLeft) || pk(i, Key::H) { navigate_single_spec(u5, es, false) } else { u5 };
    let u7 = if pk(i, Key::Home) { jump_to(u6, scan_fwd(es, 0)) } else { u6 };
    if pk(i, Key::End) { jump_to(u7, scan_back(es, es.len() - 1)) } else { u7 }
}

/// Space plays or pauses a GIF and otherwise shows the next image, as the
/// right arrow (or l) does.
pub open spec fn space_or_next(u4: UiView, i: InputView, es: Seq<EntryView>) -> UiView {
    if pk(i, Key::Space) {
        if is_gif_entry(es, u4.resolved()) {
            UiView { animation_playing: !u4.animation_playing, ..u4 }
        } else {
            navigate_single_spec(u4, es, true)
        }
    } else if pk(i, Key::ArrowRight) || pk(i, Key::L) {
        navigate_single_spec(u4, es, true)
    } else {
        u4
    }
}

/// F, 0, the wheel, the zoom keys and the pointer in the single view.
pub open spec fn single_zoom(u8: UiView, i: InputView) -> UiView {
    let u9 = fit_keys(u8, i);
    let u10 = if i.scrolled { custom_zoom(u9, ViewOp::ScrollZoom) } else { u9 };
    drag_step(step_zoom_keys(u10, i), i)
}

/// Keys of the single-image view.
pub open spec fn single_spec(u: UiView, i: InputView, es: Seq<EntryView>) -> UiView {
    single_zoom(single_moves(single_top(u, i, es), i, es), i)
}

pub open spec fn zp_push(z: ZoomPanView, op: ViewOp) -> ZoomPanView {
    ZoomPanView { pending: z.pending.push(op), ..z }
}

pub open spec fn zp_custom(z: ZoomPanView, op: ViewOp) -> ZoomPanView {
    ZoomPanView { zoom_mode: ZoomMode::Custom, pending: z.pending.push(op) }
}

pub open spec fn zp_fit(z: ZoomPanView, m: ZoomMode) -> ZoomPanView {
    ZoomPanView { zoom_mode: m, pending: z.pending.push(ViewOp::ResetPan) }
}

pub open spec fn zp_reset(z: ZoomPanView) -> ZoomPanView {
    ZoomPanView { zoom_mode: ZoomMode::FitWindow, pending: z.pending.push(ViewOp::ResetLevelAndPan) }
}

pub open spec fn active_of(c: CompareView) -> ZoomPanView {
    match c.active_side {
        CompareSide::Left => c.left_zoom,
        CompareSide::Right => c.right_zoom,
    }
}

/// Apply `f` to both sides when the zoom is locked, else to the active side.
pub open spec fn on_sides(c: CompareView, f: spec_fn(ZoomPanView) -> ZoomPanView) -> CompareView {
    if c.locked {
        CompareView { left_zoom: f(c.left_zoom), right_zoom: f(c.right_zoom), ..c }
    } else {
        match c.active_side {
            CompareSide::Left => CompareView { left_zoom: f(c.left_zoom), ..c },
            CompareSide::Right => CompareView { right_zoom: f(c.right_zoom), ..c },
        }
    }
}

/// Wheel, zoom keys and pointer in the compare view.
pub open spec fn compare_free(c: CompareView, i: InputView) -> CompareView {
    let c1 = if i.scrolled { on_sides(c, |z: ZoomPanView| zp_custom(z, ViewOp::ScrollZoom)) } else { c };
    let c2 = if pk(i, Key::Equals) || pk(i, Key::Plus) {
        on_sides(c1, |z: ZoomPanView| zp_custom(z, ViewOp::ZoomIn))
    } else {
        c1
    };
    let c3 = if pk(i, Key::Minus) { on_sides(c2, |z: ZoomPanView| zp_custom(z, ViewOp::ZoomOut)) } else { c2 };
    if i.pointer_down {
        if i.pointer_known {
            if c3.locked {
                CompareView { left_zoom: zp_push(c3.left_zoom, ViewOp::DragLinked), ..c3 }
            } else {
                on_sides(c3, |z: ZoomPanView| zp_push(z, ViewOp::Drag))
            }
        } else {
            c3
        }
    } else {
        CompareView {
            left_zoom: zp_push(c3.left_zoom, ViewOp::DragEnd),
            right_zoom: zp_push(c3.right_zoom, ViewOp::DragEnd),
            ..c3
        }
    }
}

pub open spec fn with_compare(u: UiView, c: CompareView) -> UiView {
    UiView { compare: Some(c), ..u }
}

/// Tab, K, the arrows (or h and l), F and 0 act on the compare view itself.
pub open spec fn compare_nav_key(i: InputView) -> bool {
    pk(i, Key::Tab) || pk(i, Key::K) || pk(i, Key::ArrowLeft) || pk(i, Key::H) || pk(i, Key::ArrowRight)
        || pk(i, Key::L) || pk(i, Key::F) || pk(i, Key::Num0)
}

/// The first of Tab (other side active), K (lock or unlock the zoom),
/// previous, next, F (next zoom mode) and 0 (reset zoom) that was pressed.
pub open spec fn compare_nav(c: CompareView, i: InputView, es: Seq<EntryView>) -> CompareView {
    if pk(i, Key::Tab) {
        let side = match c.active_side {
            CompareSide::Left => CompareSide::Right,
            CompareSide::Right => CompareSide::Left,
        };
        CompareView { active_side: side, ..c }
    } else if pk(i, Key::K) {
        CompareView { locked: !c.locked, ..c }
    } else if pk(i, Key::ArrowLeft) || pk(i, Key::H) {
        navigate_compare_side_spec(c, es, false)
    } else if pk(i, Key::ArrowRight) || pk(i, Key::L) {
        navigate_compare_side_spec(c, es, true)
    } else if pk(i, Key::F) {
        let m = active_of(c).zoom_mode.spec_cycle();
        on_sides(c, |z: ZoomPanView| zp_fit(z, m))
    } else {
        on_sides(c, |z: ZoomPanView| zp_reset(z))
    }
}

/// Keys of the compare view.
pub open spec fn compare_spec(u: UiView, i: InputView, es: Seq<EntryView>) -> UiView {
    match u.compare {
        None => u,
        Some(c) => if pk(i, Key::Escape) || pk(i, Key::Q) {
            scrolled_to(UiView { view_mode: view_of(u.previous_browse_mode), compare: None, ..u })
        } else if compare_nav_key(i) {
            with_compare(u, compare_nav(c, i, es))
        } else if pk(i, Key::E) {
            toggle_meta(u)
        } else if pk(i, Key::I) {
            toggle_info(u)
        } else {
            with_compare(u, compare_free(c, i))
        },
    }
}

/// Keys while the filter box is open.
pub open spec fn filter_spec(u: UiView, i: InputView, es: Seq<EntryView>) -> (UiView, InputAction) {
    let total = u.visible(es.len());
    if plain_key(i, Key::Escape) {
        (scrolled_to(u.clear_filter()), consumed(Key::Escape))
    } else if plain_key(i, Key::Enter) {
        filter_enter_spec(u, es)
    } else if plain_key(i, Key::ArrowDown) {
        if total > 0 && u.selected_index + 1 < total {
            (scrolled_to(select_row(u, u.selected_index + 1)).reset_zoom(), consumed(Key::ArrowDown))
        } else {
            (u, consumed(Key::ArrowDown))
        }
    } else if plain_key(i, Key::ArrowUp) {
        if u.selected_index > 0 {
            (scrolled_to(select_row(u, u.selected_index - 1)).reset_zoom(), consumed(Key::ArrowUp))
        } else {
            (u, consumed(Key::ArrowUp))
        }
    } else {
        (u, no_action())
    }
}

/// An empty listing: only Q, Backspace, Ctrl+L and / do anything.
pub open spec fn empty_action(i: InputView) -> InputAction {
    InputAction {
        quit: pk(i, Key::Q),
        go_up: pk(i, Key::Backspace),
        focus_path_bar: i.command && pk(i, Key::L),
        start_filter: pk(i, Key::Slash),
        ..no_action()
    }
}

/// A listing with rows, or the single and compare views.
pub open spec fn browse_spec(u: UiView, i: InputView, es: Seq<EntryView>, total: int) -> (UiView, InputAction) {
    let lg = u.view_mode == ViewMode::List || u.view_mode == ViewMode::Grid;
    if pk(i, Key::Q) && lg {
        (u, InputAction { quit: true, ..no_action() })
    } else if lg && i.command && pk(i, Key::L) {
        (u, InputAction { focus_path_bar: true, ..no_action() })
    } else if lg && pk(i, Key::Slash) {
        (u, InputAction { start_filter: true, ..no_action() })
    } else if lg && u.preview_focused {
        (preview_spec(u, i, es), no_action())
    } else {
        match u.view_mode {
            ViewMode::List => list_spec(u, i, es, total),
            ViewMode::Grid => grid_spec(u, i, es, total),
            ViewMode::Single => (single_spec(u, i, es), no_action()),
            ViewMode::Compare => (compare_spec(u, i, es), no_action()),
        }
    }
}

/// One frame of keys and pointer: the new browser state and the actions asked for.
/// An open dialog only takes Escape (which closes it); a focused path bar
/// only takes Escape (which unfocuses it and shows the current folder
/// again); an open filter box takes Escape, Enter and the arrows.
pub open spec fn handle_spec(u: UiView, i: InputView, es: Seq<EntryView>) -> (UiView, InputAction) {
    if u.dialog is Some {
        if plain_key(i, Key::Escape) {
            (UiView { dialog: None, ..u }, consumed(Key::Escape))
        } else {
            (u, no_action())
        }
    } else if u.path_bar_focused {
        if plain_key(i, Key::Escape) {
            (UiView { path_bar_focused: false, ..u }.sync_path_bar(), consumed(Key::Escape))
        } else {
            (u, no_action())
        }
    } else if u.filter_active {
        filter_spec(u, i, es)
    } else {
        let total = u.visible(es.len()) as int;
        if total == 0 && u.view_mode != ViewMode::Single {
            (u, empty_action(i))
        } else {
            browse_spec(u, i, es, total)
        }
    }
}


// ---------------------------------------------------------------------------
// One frame of keys: the code
// ---------------------------------------------------------------------------

fn has_key(keys: &Vec<Key>, k: Key) -> (r: bool)
    ensures
        r == keys@.contains(k),
{
    let mut j: usize = 0;
    while j < keys.len()
        invariant
            j <= keys@.len(),
            forall|m: int| 0 <= m < j ==> keys@[m] != k,
        decreases keys@.len() - j,
    {
        if keys[j] == k {
            return true;
        }
        j = j + 1;
    }
    false
}

fn pressed(input: &FrameInput, k: Key) -> (r: bool)
    ensures
        r == pk(input@, k),
{
    has_key(&input.pressed, k)
}

fn pressed_plain(input: &FrameInput, k: Key) -> (r: bool)
    ensures
        r == plain_key(input@, k),
{
    has_key(&input.plain, k)
}

fn toggle_meta_exec(state: &mut AppState)
    ensures
        final(state)@ == toggle_meta(old(state)@),
{
    state.show_metadata_overlay = !state.show_metadata_overlay;
}

fn toggle_info_exec(state: &mut AppState)
    ensures
        final(state)@ == toggle_info(old(state)@),
{
    state.show_info_overlay = !state.show_info_overlay;
}

fn set_edit(state: &mut AppState, a: EditAction)
    ensures
        final(state)@ == with_edit(old(state)@, a),
{
    state.pending_edit_action = Some(a);
}

fn edit_keys_exec(state: &mut AppState, input: &FrameInput)
    ensures
        final(state)@ == edit_keys(old(state)@, input@),
{
    if pressed(input, Key::E) {
        toggle_meta_exec(state);
    }
    if pressed(input, Key::G) && !input.shift {
        set_edit(state, EditAction::OpenInGimp);
    }
    if pressed(input, Key::Y) {
        set_edit(state, EditAction::CopyPath);
    }
    if pressed(input, Key::Delete) {
        set_edit(state, EditAction::Delete);
    }
}

fn cycle_zoom_exec(state: &mut AppState)
    ensures
        final(state)@ == cycle_zoom(old(state)@),
{
    state.zoom_mode = state.zoom_mode.cycle();
    state.pending_view.push(ViewOp::ResetPan);
}

fn custom_zoom_exec(state: &mut AppState, op: ViewOp)
    ensures
        final(state)@ == custom_zoom(old(state)@, op),
{
    state.zoom_mode = ZoomMode::Custom;
    state.pending_view.push(op);
}

fn fit_keys_exec(state: &mut AppState, input: &FrameInput)
    ensures
        final(state)@ == fit_keys(old(state)@, input@),
{
    if pressed(input, Key::F) {
        cycle_zoom_exec(state);
    }
    if pressed(input, Key::Num0) {
        state.reset_zoom();
    }
}

fn step_zoom_keys_exec(state: &mut AppState, input: &FrameInput)
    ensures
        final(state)@ == step_zoom_keys(old(state)@, input@),
{
    if pressed(input, Key::Equals) || pressed(input, Key::Plus) {
        custom_zoom_exec(state, ViewOp::ZoomIn);
    }
    if pressed(input, Key::Minus) {
        custom_zoom_exec(state, ViewOp::ZoomOut);
    }
}

fn drag_step_exec(state: &mut AppState, input: &FrameInput)
    ensures
        final(state)@ == drag_step(old(state)@, input@),
{
    if input.pointer_down {
        if input.pointer_known {
            state.pending_view.push(ViewOp::Drag);
        }
    } else {
        state.pending_view.push(ViewOp::DragEnd);
    }
}

/// `s + 1 < total`, without overflow.
fn below_last(s: usize, total: usize) -> (r: bool)
    ensures
        r == (s + 1 < total),
{
    total > 0 && s < total - 1
}

/// `min(s + step, last)`, without overflow.
fn forward_capped(s: usize, step: usize, last: usize) -> (r: usize)
    ensures
        r == clamp(s + step, s + step, last as int),
{
    if s <= last && last - s > step {
        s + step
    } else {
        last
    }
}

/// `max(s - step, 0)`.
fn back_floored(s: usize, step: usize) -> (r: usize)
    ensures
        r == clamp(s - step, 0, s - step),
{
    if s >= step {
        s - step
    } else {
        0
    }
}

#[verifier::spinoff_prover]
fn page_keys_exec(s3: usize, input: &FrameInput, total: usize, page: usize) -> (r: usize)
    requires
        total > 0,
    ensures
        r == page_keys(s3 as int, input@, total as int, page as int),
{
    let mut s = s3;
    if pressed(input, Key::Home) {
        s = 0;
    }
    if pressed(input, Key::End) {
        s = total - 1;
    }
    if pressed(input, Key::PageDown) {
        s = forward_capped(s, page, total - 1);
    }
    if pressed(input, Key::PageUp) {
        s = back_floored(s, page);
    }
    s
}

#[verifier::spinoff_prover]
fn list_row_exec(s0: usize, input: &FrameInput, total: usize) -> (r: usize)
    requires
        total > 0,
    ensures
        r == list_row(s0 as int, input@, total as int),
{
    let mut s = s0;
    if (pressed(input, Key::ArrowDown) || pressed(input, Key::J)) && below_last(s, total) {
        s = s + 1;
    }
    if (pressed(input, Key::ArrowUp) || pressed(input, Key::K)) && s > 0 {
        s = s - 1;
    }
    if pressed(input, Key::Space) && below_last(s, total) {
        s = s + 1;
    }
    page_keys_exec(s, input, total, 30)
}

#[verifier::spinoff_prover]
#[verifier::rlimit(40)]
fn cell_moves_exec(s0: usize, input: &FrameInput, total: usize, c: usize) -> (r: usize)
    ensures
        r == cell_moves(s0 as int, input@, total as int, c as int),
{
    let mut s = s0;
    if (pressed(input, Key::ArrowDown) || pressed(input, Key::J)) && c < total && s < total - c {
        s = s + c;
    }
    if (pressed(input, Key::ArrowUp) || pressed(input, Key::K)) && s >= c {
        s = s - c;
    }
    if (pressed(input, Key::ArrowRight) || pressed(input, Key::L)) && below_last(s, total) {
        s = s + 1;
    }
    if (pressed(input, Key::ArrowLeft) || pressed(input, Key::H)) && s > 0 {
        s = s - 1;
    }
    if pressed(input, Key::Space) && below_last(s, total) {
        s = s + 1;
    }
    s
}

fn grid_row_exec(s0: usize, input: &FrameInput, total: usize, c: usize) -> (r: usize)
    requires
        total > 0,
    ensures
        r == grid_row(s0 as int, input@, total as int, c as int),
{
    let s = cell_moves_exec(s0, input, total, c);
    match c.checked_mul(5) {
        Some(page) => page_keys_exec(s, input, total, page),
        None => {
            let r = page_keys_exec(s, input, total, usize::MAX);
            assert(page_keys(s as int, input@, total as int, usize::MAX as int) == page_keys(
                s as int,
                input@,
                total as int,
                5 * c,
            ));
            r
        },
    }
}

/// `clamp(s - delta, 0, total - 1)`.
fn wheel_target(s: usize, delta: i128, total: usize) -> (r: usize)
    requires
        total > 0,
        -0x1_0000_0000_0000_0000_0000_0000 < delta < 0x1_0000_0000_0000_0000_0000_0000,
    ensures
        r == clamp(s - delta, 0, total - 1),
{
    let v: i128 = s as i128 - delta;
    let last: i128 = (total - 1) as i128;
    if v < 0 {
        0
    } else if v > last {
        total - 1
    } else {
        v as usize
    }
}

fn wheel_step_exec(state: &mut AppState, input: &FrameInput, total: usize, delta: i128)
    requires
        total > 0,
        -0x1_0000_0000_0000_0000_0000_0000 < delta < 0x1_0000_0000_0000_0000_0000_0000,
    ensures
        final(state)@ == wheel_step(old(state)@, input@, total as int, delta as int),
{
    if input.scrolled && !input.pointer_in_preview {
        let k = wheel_target(state.selected_index, delta, total);
        if k != state.selected_index {
            state.selected_index = k;
            state.scroll_to_selected = true;
            state.reset_zoom();
            state.clear_multi_select();
        }
    }
}

fn open_single_exec(state: &mut AppState, back: BrowseMode)
    ensures
        final(state)@ == open_single(old(state)@, back),
{
    state.previous_browse_mode = back;
    state.view_mode = ViewMode::Single;
    state.reset_zoom();
}

fn enter_key_exec(state: &mut AppState, dir: &DirState, back: BrowseMode) -> (r: Option<usize>)
    ensures
        (final(state)@, r) == enter_key(old(state)@, views(dir.entries@), back),
{
    let abs = state.resolved_index();
    if abs < dir.entries.len() {
        assert(views(dir.entries@)[abs as int].is_dir == dir.entries@[abs as int].is_dir);
        if dir.entries[abs].is_dir {
            Some(abs)
        } else {
            open_single_exec(state, back);
            None
        }
    } else {
        None
    }
}

fn sort_key_exec(state: &mut AppState, input: &FrameInput)
    ensures
        final(state)@ == sort_key(old(state)@, input@),
{
    if pressed(input, Key::S) {
        if input.shift {
            state.sort_ascending = !state.sort_ascending;
        } else {
            state.sort_field = state.sort_field.cycle();
        }
    }
}


fn scroll_to_exec(state: &mut AppState)
    ensures
        final(state)@ == scrolled_to(old(state)@),
{
    state.scroll_to_selected = true;
}

fn set_view_exec(state: &mut AppState, v: ViewMode)
    ensures
        final(state)@ == (UiView { view_mode: v, ..old(state)@ }),
{
    state.view_mode = v;
}

fn browse_keys_exec(state: &mut AppState, input: &FrameInput)
    ensures
        final(state)@ == browse_keys(old(state)@, input@),
        final(state)@.multi_selected == old(state)@.multi_selected,
        final(state)@.selected_index == old(state)@.selected_index,
{
    sort_key_exec(state, input);
    fit_keys_exec(state, input);
    step_zoom_keys_exec(state, input);
    edit_keys_exec(state, input);
    if pressed(input, Key::F2) {
        set_edit(state, EditAction::Rename);
    }
}

fn enter_tab_exec(
    state: &mut AppState,
    input: &FrameInput,
    dir: &DirState,
    back: BrowseMode,
    other: ViewMode,
) -> (r: Option<usize>)
    ensures
        (final(state)@, r) == enter_tab(old(state)@, input@, views(dir.entries@), back, other),
        final(state)@.multi_selected == old(state)@.multi_selected,
{
    let enter = if pressed(input, Key::Enter) {
        enter_key_exec(state, dir, back)
    } else {
        None
    };
    if pressed(input, Key::Tab) {
        set_view_exec(state, other);
        scroll_to_exec(state);
    }
    enter
}

fn settle_exec(state: &mut AppState, prev: usize)
    ensures
        final(state)@ == (if old(state)@.selected_index != prev {
            scrolled_to(old(state)@.reset_zoom()).clear_multi()
        } else {
            old(state)@
        }),
{
    if state.selected_index != prev {
        state.reset_zoom();
        scroll_to_exec(state);
        state.clear_multi_select();
    }
}

fn browse_tail_exec(
    state: &mut AppState,
    input: &FrameInput,
    dir: &DirState,
    back: BrowseMode,
    other: ViewMode,
    prev: usize,
) -> (r: InputAction)
    requires
        pk(input@, Key::C) && !input.command ==> compare_pair_in_range(old(state)@, dir.entries@.len()),
    ensures
        (final(state)@, r) == browse_tail(old(state)@, input@, views(dir.entries@), back, other, prev),
{
    let enter = enter_tab_exec(state, input, dir, back, other);
    let go_up = pressed(input, Key::Backspace);
    browse_keys_exec(state, input);
    if pressed(input, Key::C) && !input.command {
        enter_compare(state, dir);
    }
    settle_exec(state, prev);
    InputAction {
        enter_directory: enter,
        go_up,
        quit: false,
        focus_path_bar: false,
        sort_changed: pressed(input, Key::S),
        start_filter: false,
        consumed: None,
    }
}

fn select_exec(state: &mut AppState, k: usize)
    ensures
        final(state)@ == select_row(old(state)@, k as int),
{
    state.selected_index = k;
}

fn list_exec(state: &mut AppState, input: &FrameInput, dir: &DirState, total: usize) -> (r: InputAction)
    requires
        total > 0,
        pk(input@, Key::C) && !input.command ==> compare_pair_in_range(old(state)@, dir.entries@.len()),
    ensures
        (final(state)@, r) == list_spec(old(state)@, input@, views(dir.entries@), total as int),
{
    let prev = state.selected_index;
    let k = list_row_exec(prev, input, total);
    select_exec(state, k);
    wheel_step_exec(state, input, total, input.scroll_lines as i128);
    browse_tail_exec(state, input, dir, BrowseMode::List, ViewMode::Grid, prev)
}

fn grid_exec(state: &mut AppState, input: &FrameInput, dir: &DirState, total: usize) -> (r: InputAction)
    requires
        total > 0,
        pk(input@, Key::C) && !input.command ==> compare_pair_in_range(old(state)@, dir.entries@.len()),
    ensures
        (final(state)@, r) == grid_spec(old(state)@, input@, views(dir.entries@), total as int),
{
    let prev = state.selected_index;
    let c = input.grid_columns;
    let k = grid_row_exec(prev, input, total, c);
    select_exec(state, k);
    proof {
        assert(-0x8000_0000 <= input.scroll_rows < 0x8000_0000);
        assert(0 <= c < 0x1_0000_0000_0000_0000);
        assert(-0x1_0000_0000_0000_0000_0000_0000 < input.scroll_rows * c < 0x1_0000_0000_0000_0000_0000_0000)
            by (nonlinear_arith)
            requires
                -0x8000_0000 <= input.scroll_rows < 0x8000_0000,
                0 <= c < 0x1_0000_0000_0000_0000,
        ;
    }
    let delta: i128 = input.scroll_rows as i128 * c as i128;
    wheel_step_exec(state, input, total, delta);
    browse_tail_exec(state, input, dir, BrowseMode::Grid, ViewMode::List, prev)
}


fn preview_free_exec(state: &mut AppState, input: &FrameInput)
    ensures
        final(state)@ == drag_step(
            step_zoom_keys(
                if input@.scrolled && input@.pointer_in_preview {
                    custom_zoom(old(state)@, ViewOp::ScrollZoom)
                } else {
                    old(state)@
                },
                input@,
            ),
            input@,
        ),
{
    if input.scrolled && input.pointer_in_preview {
        custom_zoom_exec(state, ViewOp::ScrollZoom);
    }
    step_zoom_keys_exec(state, input);
    drag_step_exec(state, input);
}

fn preview_enter_exec(state: &mut AppState, dir: &DirState)
    ensures
        final(state)@ == ({
            let u = old(state)@;
            let es = views(dir.entries@);
            let abs = u.resolved();
            if abs < es.len() && !es[abs as int].is_dir {
                open_single(u, browse_of(u.view_mode))
            } else {
                u
            }
        }),
{
    let abs = state.resolved_index();
    if abs < dir.entries.len() {
        assert(views(dir.entries@)[abs as int].is_dir == dir.entries@[abs as int].is_dir);
        if !dir.entries[abs].is_dir {
            let back = if state.view_mode == ViewMode::List {
                BrowseMode::List
            } else {
                BrowseMode::Grid
            };
            open_single_exec(state, back);
        }
    }
}

fn preview_keys_exec(state: &mut AppState, input: &FrameInput, dir: &DirState)
    ensures
        final(state)@ == preview_keys(old(state)@, input@, views(dir.entries@)),
{
    if pressed(input, Key::Escape) {
        state.preview_focused = false;
    } else if pressed(input, Key::ArrowRight) || pressed(input, Key::L) || pressed(input, Key::Space) {
        navigate_single(state, dir, true);
        scroll_to_exec(state);
    } else if pressed(input, Key::ArrowLeft) || pressed(input, Key::H) {
        navigate_single(state, dir, false);
        scroll_to_exec(state);
    } else if pressed(input, Key::Enter) {
        preview_enter_exec(state, dir);
    } else if pressed(input, Key::I) {
        toggle_info_exec(state);
    } else if pressed(input, Key::E) {
        toggle_meta_exec(state);
    } else if pressed(input, Key::G) && !input.shift {
        set_edit(state, EditAction::OpenInGimp);
    } else if pressed(input, Key::Y) {
        set_edit(state, EditAction::CopyPath);
    } else if pressed(input, Key::Delete) {
        set_edit(state, EditAction::Delete);
    } else if pressed(input, Key::F) {
        cycle_zoom_exec(state);
    } else if pressed(input, Key::Num0) {
        state.reset_zoom();
    } else {
        preview_free_exec(state, input);
    }
}

fn preview_exec(state: &mut AppState, input: &FrameInput, dir: &DirState)
    ensures
        final(state)@ == preview_spec(old(state)@, input@, views(dir.entries@)),
{
    preview_keys_exec(state, input, dir);
    if pressed(input, Key::Tab) {
        let other = if state.view_mode == ViewMode::List {
            ViewMode::Grid
        } else {
            ViewMode::List
        };
        set_view_exec(state, other);
        scroll_to_exec(state);
    }
}


fn single_compare_exec(state: &mut AppState, dir: &DirState)
    ensures
        final(state)@ == single_compare(old(state)@, views(dir.entries@)),
{
    let abs = state.resolved_index();
    let next = if abs < dir.entries.len() {
        next_image(dir, abs + 1)
    } else {
        None
    };
    match next {
        Some(right) => {
            state.compare = Some(CompareState::new(abs, right));
            state.view_mode = ViewMode::Compare;
        },
        None => {},
    }
}

fn single_top_exec(state: &mut AppState, input: &FrameInput, dir: &DirState)
    ensures
        final(state)@ == single_top(old(state)@, input@, views(dir.entries@)),
{
    if pressed(input, Key::Escape) || pressed(input, Key::Q) {
        let v = match state.previous_browse_mode {
            BrowseMode::List => ViewMode::List,
            BrowseMode::Grid => ViewMode::Grid,
        };
        set_view_exec(state, v);
        scroll_to_exec(state);
    }
    if pressed(input, Key::I) {
        toggle_info_exec(state);
    }
    edit_keys_exec(state, input);
    if pressed(input, Key::C) && !input.command {
        single_compare_exec(state, dir);
    }
}

fn is_gif_exec(dir: &DirState, abs: usize) -> (r: bool)
    ensures
        r == is_gif_entry(views(dir.entries@), abs),
{
    if abs < dir.entries.len() {
        assert(views(dir.entries@)[abs as int].path == dir.entries@[abs as int].path@);
        match lower_ext(dir.entries[abs].path.as_str()) {
            Some(e) => chars_equal(&e, "gif"),
            None => false,
        }
    } else {
        false
    }
}

fn jump_exec(state: &mut AppState, k: Option<usize>)
    ensures
        final(state)@ == jump_to(
            old(state)@,
            match k {
                Some(k) => Some(k as int),
                None => None,
            },
        ),
{
    match k {
        Some(k) => {
            select_exec(state, k);
            state.reset_zoom();
        },
        None => {},
    }
}

fn space_or_next_exec(state: &mut AppState, input: &FrameInput, dir: &DirState)
    ensures
        final(state)@ == space_or_next(old(state)@, input@, views(dir.entries@)),
{
    if pressed(input, Key::Space) {
        let abs = state.resolved_index();
        if is_gif_exec(dir, abs) {
            state.animation_playing = !state.animation_playing;
        } else {
            navigate_single(state, dir, true);
        }
    } else if pressed(input, Key::ArrowRight) || pressed(input, Key::L) {
        navigate_single(state, dir, true);
    }
}

fn single_moves_exec(state: &mut AppState, input: &FrameInput, dir: &DirState)
    ensures
        final(state)@ == single_moves(old(state)@, input@, views(dir.entries@)),
{
    space_or_next_exec(state, input, dir);
    if pressed(input, Key::ArrowLeft) || pressed(input, Key::H) {
        navigate_single(state, dir, false);
    }
    if pressed(input, Key::Home) {
        let k = next_image(dir, 0);
        jump_exec(state, k);
    }
    if pressed(input, Key::End) {
        let n = dir.entries.len();
        let k = prev_image(dir, n);
        jump_exec(state, k);
    }
}

fn single_zoom_exec(state: &mut AppState, input: &FrameInput)
    ensures
        final(state)@ == single_zoom(old(state)@, input@),
{
    fit_keys_exec(state, input);
    if input.scrolled {
        custom_zoom_exec(state, ViewOp::ScrollZoom);
    }
    step_zoom_keys_exec(state, input);
    drag_step_exec(state, input);
}

fn single_exec(state: &mut AppState, input: &FrameInput, dir: &DirState)
    ensures
        final(state)@ == single_spec(old(state)@, input@, views(dir.entries@)),
{
    single_top_exec(state, input, dir);
    single_moves_exec(state, input, dir);
    single_zoom_exec(state, input);
}


fn zp_push_exec(z: &mut ZoomPan, op: ViewOp)
    ensures
        final(z)@ == zp_push(old(z)@, op),
{
    z.pending.push(op);
}

fn zp_custom_exec(z: &mut ZoomPan, op: ViewOp)
    ensures
        final(z)@ == zp_custom(old(z)@, op),
{
    z.zoom_mode = ZoomMode::Custom;
    z.pending.push(op);
}

fn zp_fit_exec(z: &mut ZoomPan, m: ZoomMode)
    ensures
        final(z)@ == zp_fit(old(z)@, m),
{
    z.zoom_mode = m;
    z.pending.push(ViewOp::ResetPan);
}

fn zp_reset_exec(z: &mut ZoomPan)
    ensures
        final(z)@ == zp_reset(old(z)@),
{
    z.reset();
}

fn sides_custom(c: &mut CompareState, op: ViewOp)
    ensures
        final(c)@ == on_sides(old(c)@, |z: ZoomPanView| zp_custom(z, op)),
{
    if c.locked {
        zp_custom_exec(&mut c.left_zoom, op);
        zp_custom_exec(&mut c.right_zoom, op);
    } else {
        match c.active_side {
            CompareSide::Left => zp_custom_exec(&mut c.left_zoom, op),
            CompareSide::Right => zp_custom_exec(&mut c.right_zoom, op),
        }
    }
}

fn sides_fit(c: &mut CompareState, m: ZoomMode)
    ensures
        final(c)@ == on_sides(old(c)@, |z: ZoomPanView| zp_fit(z, m)),
{
    if c.locked {
        zp_fit_exec(&mut c.left_zoom, m);
        zp_fit_exec(&mut c.right_zoom, m);
    } else {
        match c.active_side {
            CompareSide::Left => zp_fit_exec(&mut c.left_zoom, m),
            CompareSide::Right => zp_fit_exec(&mut c.right_zoom, m),
        }
    }
}

fn sides_reset(c: &mut CompareState)
    ensures
        final(c)@ == on_sides(old(c)@, |z: ZoomPanView| zp_reset(z)),
{
    if c.locked {
        zp_reset_exec(&mut c.left_zoom);
        zp_reset_exec(&mut c.right_zoom);
    } else {
        match c.active_side {
            CompareSide::Left => zp_reset_exec(&mut c.left_zoom),
            CompareSide::Right => zp_reset_exec(&mut c.right_zoom),
        }
    }
}

fn sides_push(c: &mut CompareState, op: ViewOp)
    ensures
        final(c)@ == on_sides(old(c)@, |z: ZoomPanView| zp_push(z, op)),
{
    if c.locked {
        zp_push_exec(&mut c.left_zoom, op);
        zp_push_exec(&mut c.right_zoom, op);
    } else {
        match c.active_side {
            CompareSide::Left => zp_push_exec(&mut c.left_zoom, op),
            CompareSide::Right => zp_push_exec(&mut c.right_zoom, op),
        }
    }
}

fn compare_free_exec(c: &mut CompareState, input: &FrameInput)
    ensures
        final(c)@ == compare_free(old(c)@, input@),
{
    if input.scrolled {
        sides_custom(c, ViewOp::ScrollZoom);
    }
    if pressed(input, Key::Equals) || pressed(input, Key::Plus) {
        sides_custom(c, ViewOp::ZoomIn);
    }
    if pressed(input, Key::Minus) {
        sides_custom(c, ViewOp::ZoomOut);
    }
    if input.pointer_down {
        if input.pointer_known {
            if c.locked {
                zp_push_exec(&mut c.left_zoom, ViewOp::DragLinked);
            } else {
                sides_push(c, ViewOp::Drag);
            }
        }
    } else {
        zp_push_exec(&mut c.left_zoom, ViewOp::DragEnd);
        zp_push_exec(&mut c.right_zoom, ViewOp::DragEnd);
    }
}

fn compare_nav_exec(c: &mut CompareState, input: &FrameInput, dir: &DirState)
    ensures
        final(c)@ == compare_nav(old(c)@, input@, views(dir.entries@)),
{
    if pressed(input, Key::Tab) {
        c.active_side = match c.active_side {
            CompareSide::Left => CompareSide::Right,
            CompareSide::Right => CompareSide::Left,
        };
    } else if pressed(input, Key::K) {
        c.locked = !c.locked;
    } else if pressed(input, Key::ArrowLeft) || pressed(input, Key::H) {
        navigate_compare_side(c, dir, false);
    } else if pressed(input, Key::ArrowRight) || pressed(input, Key::L) {
        navigate_compare_side(c, dir, true);
    } else if pressed(input, Key::F) {
        let m = match c.active_side {
            CompareSide::Left => c.left_zoom.zoom_mode.cycle(),
            CompareSide::Right => c.right_zoom.zoom_mode.cycle(),
        };
        sides_fit(c, m);
    } else {
        sides_reset(c);
    }
}

fn take_compare(state: &mut AppState) -> (c: CompareState)
    requires
        old(state).compare is Some,
    ensures
        old(state)@.compare == Some(c@),
        final(state)@ == (UiView { compare: None, ..old(state)@ }),
{
    state.compare.take().unwrap()
}

fn put_compare(state: &mut AppState, c: CompareState)
    ensures
        final(state)@ == with_compare(old(state)@, c@),
{
    state.compare = Some(c);
}

fn leave_compare(state: &mut AppState)
    ensures
        final(state)@ == scrolled_to(
            UiView { view_mode: view_of(old(state)@.previous_browse_mode), compare: None, ..old(state)@ },
        ),
{
    let v = match state.previous_browse_mode {
        BrowseMode::List => ViewMode::List,
        BrowseMode::Grid => ViewMode::Grid,
    };
    state.view_mode = v;
    state.compare = None;
    state.scroll_to_selected = true;
}

fn compare_nav_pressed(input: &FrameInput) -> (r: bool)
    ensures
        r == compare_nav_key(input@),
{
    pressed(input, Key::Tab) || pressed(input, Key::K) || pressed(input, Key::ArrowLeft) || pressed(
        input,
        Key::H,
    ) || pressed(input, Key::ArrowRight) || pressed(input, Key::L) || pressed(input, Key::F)
        || pressed(input, Key::Num0)
}

fn compare_nav_branch(state: &mut AppState, input: &FrameInput, dir: &DirState)
    requires
        old(state)@.compare is Some,
    ensures
        final(state)@ == with_compare(
            old(state)@,
            compare_nav(old(state)@.compare.unwrap(), input@, views(dir.entries@)),
        ),
{
    let mut c = take_compare(state);
    compare_nav_exec(&mut c, input, dir);
    put_compare(state, c);
}

fn compare_free_branch(state: &mut AppState, input: &FrameInput)
    requires
        old(state)@.compare is Some,
    ensures
        final(state)@ == with_compare(old(state)@, compare_free(old(state)@.compare.unwrap(), input@)),
{
    let mut c = take_compare(state);
    compare_free_exec(&mut c, input);
    put_compare(state, c);
}

fn compare_exec(state: &mut AppState, input: &FrameInput, dir: &DirState)
    ensures
        final(state)@ == compare_spec(old(state)@, input@, views(dir.entries@)),
{
    if state.compare.is_none() {
        return;
    }
    if pressed(input, Key::Escape) || pressed(input, Key::Q) {
        leave_compare(state);
    } else if compare_nav_pressed(input) {
        compare_nav_branch(state, input, dir);
    } else if pressed(input, Key::E) {
        toggle_meta_exec(state);
    } else if pressed(input, Key::I) {
        toggle_info_exec(state);
    } else {
        compare_free_branch(state, input);
    }
}


fn no_action_exec() -> (r: InputAction)
    ensures
        r == no_action(),
{
    InputAction {
        enter_directory: None,
        go_up: false,
        quit: false,
        focus_path_bar: false,
        sort_changed: false,
        start_filter: false,
        consumed: None,
    }
}

fn consumed_exec(k: Key) -> (r: InputAction)
    ensures
        r == consumed(k),
{
    InputAction { consumed: Some(k), ..no_action_exec() }
}

/// Enter in the filter box: leave the filter on the entry it selects, and
/// enter it (a folder) or show it alone (an image).
pub open spec fn filter_enter_spec(u: UiView, es: Seq<EntryView>) -> (UiView, InputAction) {
    let abs = u.resolved();
    let v = u.clear_filter();
    if abs < es.len() && es[abs as int].is_dir {
        (v, InputAction { enter_directory: Some(abs), ..consumed(Key::Enter) })
    } else if abs < es.len() {
        (open_single(v, browse_of(v.view_mode)), consumed(Key::Enter))
    } else {
        (v, consumed(Key::Enter))
    }
}

fn filter_enter(state: &mut AppState, dir: &DirState) -> (r: InputAction)
    ensures
        (final(state)@, r) == filter_enter_spec(old(state)@, views(dir.entries@)),
{
    let abs = state.resolved_index();
    state.clear_filter();
    if abs < dir.entries.len() {
        assert(views(dir.entries@)[abs as int].is_dir == dir.entries@[abs as int].is_dir);
        if dir.entries[abs].is_dir {
            return InputAction { enter_directory: Some(abs), ..consumed_exec(Key::Enter) };
        } else {
            let back = if state.view_mode == ViewMode::List {
                BrowseMode::List
            } else {
                BrowseMode::Grid
            };
            open_single_exec(state, back);
        }
    }
    consumed_exec(Key::Enter)
}

fn step_row_exec(state: &mut AppState, k: usize)
    ensures
        final(state)@ == scrolled_to(select_row(old(state)@, k as int)).reset_zoom(),
{
    select_exec(state, k);
    scroll_to_exec(state);
    state.reset_zoom();
}

fn filter_exec(state: &mut AppState, input: &FrameInput, dir: &DirState) -> (r: InputAction)
    ensures
        (final(state)@, r) == filter_spec(old(state)@, input@, views(dir.entries@)),
{
    let total = state.visible_count(dir);
    if pressed_plain(input, Key::Escape) {
        state.clear_filter();
        scroll_to_exec(state);
        consumed_exec(Key::Escape)
    } else if pressed_plain(input, Key::Enter) {
        filter_enter(state, dir)
    } else if pressed_plain(input, Key::ArrowDown) {
        if below_last(state.selected_index, total) {
            let k = state.selected_index + 1;
            step_row_exec(state, k);
        }
        consumed_exec(Key::ArrowDown)
    } else if pressed_plain(input, Key::ArrowUp) {
        if state.selected_index > 0 {
            let k = state.selected_index - 1;
            step_row_exec(state, k);
        }
        consumed_exec(Key::ArrowUp)
    } else {
        no_action_exec()
    }
}

fn empty_action_exec(input: &FrameInput) -> (r: InputAction)
    ensures
        r == empty_action(input@),
{
    InputAction {
        quit: pressed(input, Key::Q),
        go_up: pressed(input, Key::Backspace),
        focus_path_bar: input.command && pressed(input, Key::L),
        start_filter: pressed(input, Key::Slash),
        ..no_action_exec()
    }
}

fn browse_exec(state: &mut AppState, input: &FrameInput, dir: &DirState, total: usize) -> (r: InputAction)
    requires
        total > 0 || old(state).view_mode == ViewMode::Single || old(state).view_mode == ViewMode::Compare,
        (old(state).view_mode == ViewMode::List || old(state).view_mode == ViewMode::Grid) && !old(state).preview_focused
            && !pk(input@, Key::Q) && !pk(input@, Key::Slash) && pk(input@, Key::C) && !input.command
            ==> compare_pair_in_range(old(state)@, dir.entries@.len()),
    ensures
        (final(state)@, r) == browse_spec(old(state)@, input@, views(dir.entries@), total as int),
{
    let lg = state.view_mode == ViewMode::List || state.view_mode == ViewMode::Grid;
    if pressed(input, Key::Q) && lg {
        InputAction { quit: true, ..no_action_exec() }
    } else if lg && input.command && pressed(input, Key::L) {
        InputAction { focus_path_bar: true, ..no_action_exec() }
    } else if lg && pressed(input, Key::Slash) {
        InputAction { start_filter: true, ..no_action_exec() }
    } else if lg && state.preview_focused {
        preview_exec(state, input, dir);
        no_action_exec()
    } else {
        match state.view_mode {
            ViewMode::List => list_exec(state, input, dir, total),
            ViewMode::Grid => grid_exec(state, input, dir, total),
            ViewMode::Single => {
                single_exec(state, input, dir);
                no_action_exec()
            },
            ViewMode::Compare => {
                compare_exec(state, input, dir);
                no_action_exec()
            },
        }
    }
}

/// Handle one frame of keys and pointer input (see `handle_spec`): update the
/// browser state and report what the application has to do.
pub fn handle_input(input: &FrameInput, state: &mut AppState, dir: &DirState) -> (r: InputAction)
    requires
        compare_key_used(old(state)@, input@, dir.entries@.len()) ==> compare_pair_in_range(old(state)@, dir.entries@.len()),
    ensures
        (final(state)@, r) == handle_spec(old(state)@, input@, views(dir.entries@)),
{
    if state.dialog.is_some() {
        if pressed_plain(input, Key::Escape) {
            state.dialog = None;
            consumed_exec(Key::Escape)
        } else {
            no_action_exec()
        }
    } else if state.path_bar_focused {
        if pressed_plain(input, Key::Escape) {
            state.path_bar_focused = false;
            state.sync_path_bar();
            consumed_exec(Key::Escape)
        } else {
            no_action_exec()
        }
    } else if state.filter_active {
        filter_exec(state, input, dir)
    } else {
        let total = state.visible_count(dir);
        if total == 0 && state.view_mode != ViewMode::Single {
            empty_action_exec(input)
        } else {
            browse_exec(state, input, dir, total)
        }
    }
}

// ---------------------------------------------------------------------------
// Laws
// ---------------------------------------------------------------------------

proof fn lemma_scan_back_reaches(es: Seq<EntryView>, idx: int, j: int)
    requires
        0 <= idx <= j < es.len(),
        !es[idx].is_dir,
        forall|m: int| idx < m <= j ==> es[m].is_dir,
    ensures
        scan_back(es, j) == Some(idx),
    decreases j - idx,
{
    if j > idx {
        lemma_scan_back_reaches(es, idx, j - 1);
    }
}

proof fn lemma_scan_fwd_reaches(es: Seq<EntryView>, idx: int, j: int)
    requires
        0 <= j <= idx < es.len(),
        !es[idx].is_dir,
        forall|m: int| j <= m < idx ==> es[m].is_dir,
    ensures
        scan_fwd(es, j) == Some(idx),
    decreases idx - j,
{
    if j < idx {
        lemma_scan_fwd_reaches(es, idx, j + 1);
    }
}

/// From an image, the next image and back (or the previous image and back)
/// lead to the same image; moving always lands on an image of the listing.
pub proof fn law_step_back_undoes_step(es: Seq<EntryView>, idx: int, forward: bool)
    requires
        0 <= idx < es.len(),
        !es[idx].is_dir,
    ensures
        step_image(es, idx, forward) matches Some(k) ==> 0 <= k < es.len() && !es[k].is_dir
            && step_image(es, k, !forward) == Some(idx),
{
    if forward {
        lemma_scan_fwd(es, idx + 1);
        if let Some(k) = scan_fwd(es, idx + 1) {
            lemma_scan_back_reaches(es, idx, k - 1);
        }
    } else {
        lemma_scan_back(es, idx - 1);
        if let Some(k) = scan_back(es, idx - 1) {
            lemma_scan_fwd_reaches(es, idx, k + 1);
        }
    }
}

/// Moving to the next or previous image in the single view selects an image
/// of the listing, or changes nothing.
pub proof fn law_navigate_lands_on_image(u: UiView, es: Seq<EntryView>, forward: bool)
    requires
        es.len() <= usize::MAX,
    ensures
        navigate_single_spec(u, es, forward) == u || ({
            let k = navigate_single_spec(u, es, forward).selected_index;
            k < es.len() && !es[k as int].is_dir
        }),
{
    if forward {
        if u.selected_index + 1 >= 0 {
            lemma_scan_fwd(es, u.selected_index + 1);
        }
    } else {
        if u.selected_index - 1 < es.len() {
            lemma_scan_back(es, u.selected_index - 1);
        }
    }
}

/// While a dialog is open, every key but Escape is ignored.
pub proof fn law_dialog_swallows_keys(u: UiView, i: InputView, es: Seq<EntryView>)
    requires
        u.dialog is Some,
        !plain_key(i, Key::Escape),
    ensures
        handle_spec(u, i, es) == (u, no_action()),
{
}

/// In an empty listing (outside the single view) the keys change nothing in
/// the browser; they can only ask to quit, go up, focus the path bar or open
/// the filter.
pub proof fn law_empty_listing_keeps_state(u: UiView, i: InputView, es: Seq<EntryView>)
    requires
        u.dialog is None,
        !u.path_bar_focused,
        !u.filter_active,
        es.len() == 0,
        u.view_mode != ViewMode::Single,
    ensures
        handle_spec(u, i, es).0 == u,
        handle_spec(u, i, es).1.enter_directory is None,
        !handle_spec(u, i, es).1.sort_changed,
{
}

proof fn lemma_single_moves_keep_view(u: UiView, i: InputView, es: Seq<EntryView>)
    ensures
        single_moves(u, i, es).view_mode == u.view_mode,
        single_moves(u, i, es).scroll_to_selected == u.scroll_to_selected,
        single_zoom(u, i).view_mode == u.view_mode,
        single_zoom(u, i).scroll_to_selected == u.scroll_to_selected,
{
}

/// Escape in the single view goes back to the browse view it was opened
/// from (unless C asks for the compare view in the same frame).
pub proof fn law_escape_leaves_single(u: UiView, i: InputView, es: Seq<EntryView>)
    requires
        u.dialog is None,
        !u.path_bar_focused,
        !u.filter_active,
        u.view_mode == ViewMode::Single,
        pk(i, Key::Escape),
        !pk(i, Key::C),
    ensures
        handle_spec(u, i, es).0.view_mode == view_of(u.previous_browse_mode),
        handle_spec(u, i, es).0.scroll_to_selected,
{
    let total = u.visible(es.len()) as int;
    assert(handle_spec(u, i, es) == browse_spec(u, i, es, total));
    assert(browse_spec(u, i, es, total) == (single_spec(u, i, es), no_action()));
    let top = single_top(u, i, es);
    assert(top.view_mode == view_of(u.previous_browse_mode));
    assert(top.scroll_to_selected);
    lemma_single_moves_keep_view(top, i, es);
    lemma_single_moves_keep_view(single_moves(top, i, es), i, es);
}


proof fn lemma_navigate_in(u: UiView, es: Seq<EntryView>, forward: bool)
    requires
        u.selected_index < es.len(),
    ensures
        navigate_single_spec(u, es, forward).selected_index < es.len(),
{
    if forward {
        lemma_scan_fwd(es, u.selected_index + 1);
    } else {
        lemma_scan_back(es, u.selected_index - 1);
    }
}

proof fn lemma_page_keys_in(s3: int, i: InputView, total: int, page: int)
    requires
        0 <= s3 < total,
        page >= 0,
    ensures
        0 <= page_keys(s3, i, total, page) < total,
{
}

proof fn lemma_list_row_in(s0: int, i: InputView, total: int)
    requires
        0 <= s0 < total,
    ensures
        0 <= list_row(s0, i, total) < total,
{
    lemma_page_keys_in(line_moves(s0, i, total), i, total, 30);
}

proof fn lemma_grid_row_in(s0: int, i: InputView, total: int, c: int)
    requires
        0 <= s0 < total,
        c >= 0,
    ensures
        0 <= grid_row(s0, i, total, c) < total,
{
    lemma_page_keys_in(cell_moves(s0, i, total, c), i, total, 5 * c);
}

proof fn lemma_tail_keeps_selection(
    u: UiView,
    i: InputView,
    es: Seq<EntryView>,
    back: BrowseMode,
    other: ViewMode,
    prev: usize,
)
    ensures
        browse_tail(u, i, es, back, other, prev).0.selected_index == u.selected_index,
{
    let (u4, enter) = enter_tab(u, i, es, back, other);
    assert(u4.selected_index == u.selected_index);
    let u8 = browse_keys(u4, i);
    assert(u8.selected_index == u.selected_index);
    assert(enter_compare_spec(u8, es).selected_index == u.selected_index);
}

proof fn lemma_list_in(u: UiView, i: InputView, es: Seq<EntryView>, total: int)
    requires
        total == es.len(),
        0 < total <= usize::MAX,
        u.selected_index < total,
    ensures
        list_spec(u, i, es, total).0.selected_index < total,
{
    lemma_list_row_in(u.selected_index as int, i, total);
    let u1 = select_row(u, list_row(u.selected_index as int, i, total));
    let u2 = wheel_step(u1, i, total, i.scroll_lines as int);
    assert(u2.selected_index < total);
    lemma_tail_keeps_selection(u2, i, es, BrowseMode::List, ViewMode::Grid, u.selected_index);
}

proof fn lemma_grid_in(u: UiView, i: InputView, es: Seq<EntryView>, total: int)
    requires
        total == es.len(),
        0 < total <= usize::MAX,
        u.selected_index < total,
    ensures
        grid_spec(u, i, es, total).0.selected_index < total,
{
    let c = i.grid_columns as int;
    lemma_grid_row_in(u.selected_index as int, i, total, c);
    let u1 = select_row(u, grid_row(u.selected_index as int, i, total, c));
    let u2 = wheel_step(u1, i, total, i.scroll_rows * c);
    assert(u2.selected_index < total);
    lemma_tail_keeps_selection(u2, i, es, BrowseMode::Grid, ViewMode::List, u.selected_index);
}

proof fn lemma_single_in(u: UiView, i: InputView, es: Seq<EntryView>)
    requires
        u.selected_index < es.len(),
        !u.filter_active,
    ensures
        single_spec(u, i, es).selected_index < es.len(),
{
    let u4 = single_top(u, i, es);
    assert(u4.selected_index == u.selected_index);
    lemma_navigate_in(u4, es, true);
    let u5 = space_or_next(u4, i, es);
    assert(u5.selected_index < es.len());
    lemma_navigate_in(u5, es, false);
    let u6 = if pk(i, Key::ArrowLeft) || pk(i, Key::H) { navigate_single_spec(u5, es, false) } else { u5 };
    lemma_scan_fwd(es, 0);
    let u7 = if pk(i, Key::Home) { jump_to(u6, scan_fwd(es, 0)) } else { u6 };
    assert(u7.selected_index < es.len());
    lemma_scan_back(es, es.len() - 1);
    let u8 = single_moves(u4, i, es);
    assert(u8.selected_index < es.len());
}

proof fn lemma_preview_in(u: UiView, i: InputView, es: Seq<EntryView>)
    requires
        u.selected_index < es.len(),
    ensures
        preview_spec(u, i, es).selected_index < es.len(),
{
    lemma_navigate_in(u, es, true);
    lemma_navigate_in(u, es, false);
    assert(preview_keys(u, i, es).selected_index < es.len());
}

/// Outside a dialog, the path bar and the filter, a frame of input (any keys,
/// wheel and pointer, in any view) leaves the selection on an entry of a
/// listing that has entries.
pub proof fn law_selection_stays_in_listing(u: UiView, i: InputView, es: Seq<EntryView>)
    requires
        u.dialog is None,
        !u.path_bar_focused,
        !u.filter_active,
        0 < es.len() <= usize::MAX,
        u.selected_index < es.len(),
    ensures
        handle_spec(u, i, es).0.selected_index < es.len(),
{
    let total = u.visible(es.len()) as int;
    assert(total == es.len());
    assert(handle_spec(u, i, es) == browse_spec(u, i, es, total));
    let lg = u.view_mode == ViewMode::List || u.view_mode == ViewMode::Grid;
    if pk(i, Key::Q) && lg {
    } else if lg && i.command && pk(i, Key::L) {
    } else if lg && pk(i, Key::Slash) {
    } else if lg && u.preview_focused {
        lemma_preview_in(u, i, es);
    } else {
        match u.view_mode {
            ViewMode::List => lemma_list_in(u, i, es, total),
            ViewMode::Grid => lemma_grid_in(u, i, es, total),
            ViewMode::Single => lemma_single_in(u, i, es),
            ViewMode::Compare => {},
        }
    }
}

/// The frame holds one key press, `k`, with no modifier, and no wheel.
pub open spec fn only_key(i: InputView, k: Key) -> bool {
    &&& i.pressed == seq![k]
    &&& i.plain == seq![k]
    &&& !i.command
    &&& !i.shift
    &&& !i.scrolled
}

proof fn lemma_only_key(i: InputView, k: Key)
    requires
        only_key(i, k),
    ensures
        forall|x: Key| #[trigger] pk(i, x) <==> x == k,
        forall|x: Key| #[trigger] plain_key(i, x) <==> x == k,
{
    assert forall|x: Key| #[trigger] pk(i, x) <==> x == k by {
        if x == k {
            assert(i.pressed[0] == k);
        }
    }
    assert forall|x: Key| #[trigger] plain_key(i, x) <==> x == k by {
        if x == k {
            assert(i.plain[0] == k);
        }
    }
}

/// Enter alone on an image in the list view shows it alone.
proof fn lemma_enter_opens_single(u: UiView, i: InputView, es: Seq<EntryView>)
    requires
        u.view_mode == ViewMode::List,
        !u.preview_focused,
        !u.filter_active,
        u.dialog is None,
        !u.path_bar_focused,
        u.selected_index < es.len(),
        !es[u.selected_index as int].is_dir,
        only_key(i, Key::Enter),
    ensures
        handle_spec(u, i, es).0 == open_single(u, BrowseMode::List),
        handle_spec(u, i, es).1.enter_directory is None,
{
    lemma_only_key(i, Key::Enter);
    let total = es.len() as int;
    assert(handle_spec(u, i, es) == browse_spec(u, i, es, total));
    assert(browse_spec(u, i, es, total) == list_spec(u, i, es, total));
    let s = u.selected_index as int;
    assert(line_moves(s, i, total) == s);
    assert(list_row(s, i, total) == s);
    assert(select_row(u, s) == u);
    assert(wheel_step(u, i, total, i.scroll_lines as int) == u);
    let v = open_single(u, BrowseMode::List);
    assert(enter_key(u, es, BrowseMode::List) == (v, None::<usize>));
    assert(enter_tab(u, i, es, BrowseMode::List, ViewMode::Grid) == (v, None::<usize>));
    assert(sort_key(v, i) == v);
    assert(fit_keys(v, i) == v);
    assert(step_zoom_keys(v, i) == v);
    assert(edit_keys(v, i) == v);
    assert(browse_keys(v, i) == v);
}

/// Escape alone in the single view goes back to the browse view it came
/// from, on the same entry, and asks for nothing.
proof fn lemma_escape_leaves_single_alone(u: UiView, i: InputView, es: Seq<EntryView>)
    requires
        u.view_mode == ViewMode::Single,
        !u.filter_active,
        u.dialog is None,
        !u.path_bar_focused,
        es.len() > 0,
        only_key(i, Key::Escape),
    ensures
        handle_spec(u, i, es).0.view_mode == view_of(u.previous_browse_mode),
        handle_spec(u, i, es).0.selected_index == u.selected_index,
        handle_spec(u, i, es).1 == no_action(),
{
    lemma_only_key(i, Key::Escape);
    let total = es.len() as int;
    assert(handle_spec(u, i, es) == browse_spec(u, i, es, total));
    assert(browse_spec(u, i, es, total) == (single_spec(u, i, es), no_action()));
    let t = single_top(u, i, es);
    assert(t == scrolled_to(UiView { view_mode: view_of(u.previous_browse_mode), ..u }));
    assert(space_or_next(t, i, es) == t);
    let m = single_moves(t, i, es);
    assert(m == t);
    assert(fit_keys(m, i) == m);
    assert(step_zoom_keys(m, i) == m);
    let z = single_zoom(m, i);
    assert(z.view_mode == m.view_mode && z.selected_index == m.selected_index);
}

/// Enter on an image in the list view, then Escape in the next frame, shows
/// the image alone and then comes back to the list on the same entry; no
/// folder is entered and nothing asks to quit.
pub proof fn law_enter_then_escape(u: UiView, i1: InputView, i2: InputView, es: Seq<EntryView>)
    requires
        u.view_mode == ViewMode::List,
        !u.preview_focused,
        !u.filter_active,
        u.dialog is None,
        !u.path_bar_focused,
        u.selected_index < es.len(),
        !es[u.selected_index as int].is_dir,
        only_key(i1, Key::Enter),
        only_key(i2, Key::Escape),
    ensures
        ({
            let (u1, a1) = handle_spec(u, i1, es);
            let (u2, a2) = handle_spec(u1, i2, es);
            &&& u1.view_mode == ViewMode::Single
            &&& u1.previous_browse_mode == BrowseMode::List
            &&& a1.enter_directory is None
            &&& u2.view_mode == ViewMode::List
            &&& u2.selected_index == u.selected_index
            &&& !a2.quit
        }),
{
    lemma_enter_opens_single(u, i1, es);
    let u1 = handle_spec(u, i1, es).0;
    lemma_escape_leaves_single_alone(u1, i2, es);
}

/// The list view with nothing but one paging key: the row it ends on.
proof fn lemma_list_page(u: UiView, i: InputView, es: Seq<EntryView>, k: Key)
    requires
        u.view_mode == ViewMode::List,
        !u.preview_focused,
        !u.filter_active,
        u.dialog is None,
        !u.path_bar_focused,
        u.selected_index < es.len(),
        es.len() <= usize::MAX,
        k == Key::PageUp || k == Key::PageDown || k == Key::Home || k == Key::End,
        only_key(i, k),
    ensures
        handle_spec(u, i, es).0.selected_index as int == list_row(u.selected_index as int, i, es.len() as int),
        0 <= list_row(u.selected_index as int, i, es.len() as int) < es.len(),
        handle_spec(u, i, es).0.view_mode == ViewMode::List,
{
    lemma_only_key(i, k);
    let total = es.len() as int;
    let s = u.selected_index as int;
    assert(handle_spec(u, i, es) == browse_spec(u, i, es, total));
    assert(browse_spec(u, i, es, total) == list_spec(u, i, es, total));
    assert(line_moves(s, i, total) == s);
    let r = list_row(s, i, total);
    assert(0 <= r < total);
    let u1 = select_row(u, r);
    assert(wheel_step(u1, i, total, i.scroll_lines as int) == u1);
    assert(enter_tab(u1, i, es, BrowseMode::List, ViewMode::Grid) == (u1, None::<usize>));
    assert(sort_key(u1, i) == u1);
    assert(fit_keys(u1, i) == u1);
    assert(step_zoom_keys(u1, i) == u1);
    assert(edit_keys(u1, i) == u1);
    assert(browse_keys(u1, i) == u1);
    let c9 = if pk(i, Key::C) && !i.command { enter_compare_spec(u1, es) } else { u1 };
    assert(c9 == u1);
    assert(browse_tail(u1, i, es, BrowseMode::List, ViewMode::Grid, u.selected_index).0.selected_index == u1.selected_index);
    assert(list_spec(u, i, es, total).0.selected_index == u1.selected_index);
    assert(u1.selected_index as int == r);
}

/// PageUp alone in the list view moves the selection up one page of 30
/// rows, stopping at the first row; PageDown alone moves it down one page,
/// stopping at the last row; Home and End go to the first and the last row.
/// The view stays the list.
pub proof fn law_list_paging(u: UiView, i: InputView, es: Seq<EntryView>, k: Key)
    requires
        u.view_mode == ViewMode::List,
        !u.preview_focused,
        !u.filter_active,
        u.dialog is None,
        !u.path_bar_focused,
        u.selected_index < es.len(),
        es.len() <= usize::MAX,
        k == Key::PageUp || k == Key::PageDown || k == Key::Home || k == Key::End,
        only_key(i, k),
    ensures
        handle_spec(u, i, es).0.view_mode == ViewMode::List,
        k == Key::Home ==> handle_spec(u, i, es).0.selected_index == 0,
        k == Key::End ==> handle_spec(u, i, es).0.selected_index == es.len() - 1,
        k == Key::PageUp ==> handle_spec(u, i, es).0.selected_index == if u.selected_index >= 30 {
            u.selected_index - 30
        } else {
            0
        },
        k == Key::PageDown ==> handle_spec(u, i, es).0.selected_index == if u.selected_index + 30 < es.len() {
            u.selected_index + 30
        } else {
            es.len() - 1
        },
{
    lemma_list_page(u, i, es, k);
    lemma_only_key(i, k);
    let n = es.len() as int;
    let s = u.selected_index as int;
    assert(line_moves(s, i, n) == s);
    if k == Key::PageUp {
        assert(page_keys(s, i, n, 30) == clamp(s - 30, 0, s - 30));
    } else if k == Key::PageDown {
        assert(page_keys(s, i, n, 30) == clamp(s + 30, s + 30, n - 1));
    } else if k == Key::Home {
        assert(page_keys(s, i, n, 30) == 0);
    } else {
        assert(page_keys(s, i, n, 30) == n - 1);
    }
}

/// The grid view with nothing but one paging key: the cell it ends on.
proof fn lemma_grid_page(u: UiView, i: InputView, es: Seq<EntryView>, k: Key)
    requires
        u.view_mode == ViewMode::Grid,
        !u.preview_focused,
        !u.filter_active,
        u.dialog is None,
        !u.path_bar_focused,
        u.selected_index < es.len(),
        es.len() <= usize::MAX,
        k == Key::PageUp || k == Key::PageDown,
        only_key(i, k),
    ensures
        handle_spec(u, i, es).0.selected_index as int == page_keys(
            u.selected_index as int,
            i,
            es.len() as int,
            5 * i.grid_columns,
        ),
        handle_spec(u, i, es).0.view_mode == ViewMode::Grid,
{
    lemma_only_key(i, k);
    let total = es.len() as int;
    let s = u.selected_index as int;
    let c = i.grid_columns as int;
    assert(handle_spec(u, i, es) == browse_spec(u, i, es, total));
    assert(browse_spec(u, i, es, total) == grid_spec(u, i, es, total));
    assert(cell_moves(s, i, total, c) == s);
    let r = grid_row(s, i, total, c);
    assert(r == page_keys(s, i, total, 5 * c));
    assert(0 <= r < total) by {
        assert(0 <= 5 * c);
    }
    let u1 = select_row(u, r);
    assert(wheel_step(u1, i, total, i.scroll_rows * c) == u1);
    assert(enter_tab(u1, i, es, BrowseMode::Grid, ViewMode::List) == (u1, None::<usize>));
    assert(sort_key(u1, i) == u1);
    assert(fit_keys(u1, i) == u1);
    assert(step_zoom_keys(u1, i) == u1);
    assert(edit_keys(u1, i) == u1);
    assert(browse_keys(u1, i) == u1);
    let c9 = if pk(i, Key::C) && !i.command { enter_compare_spec(u1, es) } else { u1 };
    assert(c9 == u1);
    assert(browse_tail(u1, i, es, BrowseMode::Grid, ViewMode::List, u.selected_index).0.selected_index == u1.selected_index);
    assert(u1.selected_index as int == r);
}

/// PageUp alone in the grid view moves the selection up five rows of the
/// grid's columns, stopping at the first cell; PageDown moves it down five
/// rows, stopping at the last cell. The view stays the grid.
pub proof fn law_grid_paging(u: UiView, i: InputView, es: Seq<EntryView>, k: Key)
    requires
        u.view_mode == ViewMode::Grid,
        !u.preview_focused,
        !u.filter_active,
        u.dialog is None,
        !u.path_bar_focused,
        u.selected_index < es.len(),
        es.len() <= usize::MAX,
        k == Key::PageUp || k == Key::PageDown,
        only_key(i, k),
    ensures
        handle_spec(u, i, es).0.view_mode == ViewMode::Grid,
        k == Key::PageUp ==> handle_spec(u, i, es).0.selected_index == if u.selected_index >= 5 * i.grid_columns {
            u.selected_index - 5 * i.grid_columns
        } else {
            0
        },
        k == Key::PageDown ==> handle_spec(u, i, es).0.selected_index == if u.selected_index + 5 * i.grid_columns
            < es.len() {
            u.selected_index + 5 * i.grid_columns
        } else {
            es.len() - 1
        },
{
    lemma_grid_page(u, i, es, k);
    lemma_only_key(i, k);
    let n = es.len() as int;
    let s = u.selected_index as int;
    let p = 5 * i.grid_columns;
    if k == Key::PageUp {
        assert(page_keys(s, i, n, p) == clamp(s - p, 0, s - p));
    } else {
        assert(page_keys(s, i, n, p) == clamp(s + p, s + p, n - 1));
    }
}

} // verus!
