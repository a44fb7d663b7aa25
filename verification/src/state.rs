use std::collections::BTreeSet;
use vstd::prelude::*;

use crate::dir::DirState;

verus! {

/// The field a directory listing is sorted by.
#[derive(Debug, Clone, Copy, PartialEq, Eq, Structural)]
pub enum SortField {
    Name,
    Size,
    Date,
}

impl SortField {
    pub open spec fn spec_cycle(self) -> SortField {
        match self {
            SortField::Name => SortField::Size,
            SortField::Size => SortField::Date,
            SortField::Date => SortField::Name,
        }
    }

    pub open spec fn spec_label(self) -> Seq<char> {
        match self {
            SortField::Name => "Name"@,
            SortField::Size => "Size"@,
            SortField::Date => "Date"@,
        }
    }

    /// The next sort field in the order Name, Size, Date, Name.
    pub fn cycle(self) -> (r: Self)
        ensures
            r == self.spec_cycle(),
    {
        match self {
            SortField::Name => SortField::Size,
            SortField::Size => SortField::Date,
            SortField::Date => SortField::Name,
        }
    }

    /// The text shown for this sort field.
    pub fn label(self) -> (r: &'static str)
        ensures
            r@ == self.spec_label(),
    {
        match self {
            SortField::Name => "Name",
            SortField::Size => "Size",
            SortField::Date => "Date",
        }
    }
}

/// What the main area shows.
#[derive(Debug, Clone, Copy, PartialEq, Eq, Structural)]
pub enum ViewMode {
    List,
    Grid,
    Single,
    Compare,
}

/// The browse mode to return to when leaving the single or compare view.
#[derive(Debug, Clone, Copy, PartialEq, Eq, Structural)]
pub enum BrowseMode {
    List,
    Grid,
}

/// How an image is scaled to the space it is shown in.
#[derive(Debug, Clone, Copy, PartialEq, Eq, Structural)]
pub enum ZoomMode {
    FitWindow,
    FitWidth,
    FitHeight,
    Original,
    Custom,
}

impl ZoomMode {
    pub open spec fn spec_cycle(self) -> ZoomMode {
        match self {
            ZoomMode::FitWindow => ZoomMode::FitWidth,
            ZoomMode::FitWidth => ZoomMode::FitHeight,
            ZoomMode::FitHeight => ZoomMode::Original,
            ZoomMode::Original => ZoomMode::FitWindow,
            ZoomMode::Custom => ZoomMode::FitWindow,
        }
    }

    pub open spec fn spec_label(self) -> Seq<char> {
        match self {
            ZoomMode::FitWindow => "Fit Window"@,
            ZoomMode::FitWidth => "Fit Width"@,
            ZoomMode::FitHeight => "Fit Height"@,
            ZoomMode::Original => "Original (1:1)"@,
            ZoomMode::Custom => "Custom"@,
        }
    }

    /// The next zoom mode: FitWindow, FitWidth, FitHeight, Original and back;
    /// a custom zoom returns to FitWindow.
    pub fn cycle(self) -> (r: Self)
        ensures
            r == self.spec_cycle(),
    {
        match self {
            ZoomMode::FitWindow => ZoomMode::FitWidth,
            ZoomMode::FitWidth => ZoomMode::FitHeight,
            ZoomMode::FitHeight => ZoomMode::Original,
            ZoomMode::Original => ZoomMode::FitWindow,
            ZoomMode::Custom => ZoomMode::FitWindow,
        }
    }

    /// The text shown for this zoom mode.
    pub fn label(self) -> (r: &'static str)
        ensures
            r@ == self.spec_label(),
    {
        match self {
            ZoomMode::FitWindow => "Fit Window",
            ZoomMode::FitWidth => "Fit Width",
            ZoomMode::FitHeight => "Fit Height",
            ZoomMode::Original => "Original (1:1)",
            ZoomMode::Custom => "Custom",
        }
    }
}

/// The interpolation used when a texture is magnified or minified.
#[derive(Debug, Clone, Copy, PartialEq, Eq, Structural)]
pub enum ImageFilter {
    Nearest,
    Linear,
}

impl ImageFilter {
    pub open spec fn spec_label(self) -> Seq<char> {
        match self {
            ImageFilter::Nearest => "Nearest (Sharp)"@,
            ImageFilter::Linear => "Bilinear (Smooth)"@,
        }
    }

    /// The text shown for this filter.
    pub fn label(self) -> (r: &'static str)
        ensures
            r@ == self.spec_label(),
    {
        match self {
            ImageFilter::Nearest => "Nearest (Sharp)",
            ImageFilter::Linear => "Bilinear (Smooth)",
        }
    }
}

/// A file operation requested from a menu or a key.
#[derive(Debug, Clone, Copy, PartialEq, Eq, Structural)]
pub enum EditAction {
    Rename,
    CopyTo,
    ViewMetadata,
    RotateLeft,
    RotateRight,
    OpenInGimp,
    OpenInKrita,
    Delete,
    CopyPath,
    Compare,
}

/// A modal dialog and the values it edits.
#[derive(Debug, Clone)]
pub enum DialogState {
    Rename { original_path: String, new_name: String },
    CopyTo { source_paths: Vec<String>, dest_path: String },
    DeleteConfirm { paths: Vec<String>, names: Vec<String> },
}

/// One decoded animation frame, RGBA8, row-major.
pub struct DecodedFrame {
    pub rgba: Vec<u8>,
    pub width: u32,
    pub height: u32,
}

/// The side of the compare view that keys act on.
#[derive(Debug, Clone, Copy, PartialEq, Eq, Structural)]
pub enum CompareSide {
    Left,
    Right,
}

/// A change to the fractional zoom factor, pan offset or animation clock of a
/// view. Those quantities are real numbers and live with the user interface,
/// which applies these requests in the order they were made.
#[derive(Debug, Clone, Copy, PartialEq, Eq, Structural)]
pub enum ViewOp {
    /// Zoom factor back to 1 and pan offset back to zero.
    ResetLevelAndPan,
    /// Pan offset back to zero.
    ResetPan,
    /// Multiply the zoom factor by the factor that this frame's scroll gives, then clamp.
    ScrollZoom,
    /// Multiply the zoom factor by 1.25, then clamp.
    ZoomIn,
    /// Divide the zoom factor by 1.25, then clamp.
    ZoomOut,
    /// The pointer is down: pan by its movement since the last frame.
    Drag,
    /// The pointer is down in a locked compare view: both sides pan by the
    /// movement measured on the left side.
    DragLinked,
    /// The pointer is up: forget the last drag position.
    DragEnd,
    /// Restart the animation clock of the shown image.
    RestartAnimation,
}

/// Zoom state of one side of the compare view.
pub struct ZoomPan {
    pub zoom_mode: ZoomMode,
    pub pending: Vec<ViewOp>,
}

impl ZoomPan {
    /// A view that fits the window, with nothing pending.
    pub fn new() -> (r: Self)
        ensures
            r.zoom_mode == ZoomMode::FitWindow,
            r.pending@ == Seq::<ViewOp>::empty(),
    {
        ZoomPan { zoom_mode: ZoomMode::FitWindow, pending: Vec::new() }
    }

    /// Back to fit-window, with zoom factor 1 and no pan.
    pub fn reset(&mut self)
        ensures
            final(self).zoom_mode == ZoomMode::FitWindow,
            final(self).pending@ == old(self).pending@.push(ViewOp::ResetLevelAndPan),
    {
        self.zoom_mode = ZoomMode::FitWindow;
        self.pending.push(ViewOp::ResetLevelAndPan);
    }
}

/// Two images side by side.
pub struct CompareState {
    pub left_index: usize,
    pub right_index: usize,
    pub active_side: CompareSide,
    pub left_zoom: ZoomPan,
    pub right_zoom: ZoomPan,
    pub locked: bool,
}

impl CompareState {
    /// Compare `left` with `right`, left side active, zoom locked.
    pub fn new(left: usize, right: usize) -> (r: Self)
        ensures
            r@ == new_compare(left, right),
    {
        let r = CompareState {
            left_index: left,
            right_index: right,
            active_side: CompareSide::Left,
            left_zoom: ZoomPan::new(),
            right_zoom: ZoomPan::new(),
            locked: true,
        };
        assert(r.left_zoom@ == ZoomPanView { zoom_mode: ZoomMode::FitWindow, pending: Seq::empty() });
        assert(r.right_zoom@ == ZoomPanView { zoom_mode: ZoomMode::FitWindow, pending: Seq::empty() });
        r
    }

    pub open spec fn active_spec(&self) -> &ZoomPan {
        match self.active_side {
            CompareSide::Left => &self.left_zoom,
            CompareSide::Right => &self.right_zoom,
        }
    }

    /// The zoom state of the active side.
    pub fn active_zoom(&mut self) -> (r: &mut ZoomPan)
        ensures
            *r == *old(self).active_spec(),
            final(self).left_index == old(self).left_index,
            final(self).right_index == old(self).right_index,
            final(self).active_side == old(self).active_side,
            final(self).locked == old(self).locked,
            old(self).active_side == CompareSide::Left ==> final(self).left_zoom == *final(r)
                && final(self).right_zoom == old(self).right_zoom,
            old(self).active_side == CompareSide::Right ==> final(self).right_zoom == *final(r)
                && final(self).left_zoom == old(self).left_zoom,
    {
        match self.active_side {
            CompareSide::Left => &mut self.left_zoom,
            CompareSide::Right => &mut self.right_zoom,
        }
    }
}


/// A compare side's zoom state as plain values.
pub struct ZoomPanView {
    pub zoom_mode: ZoomMode,
    pub pending: Seq<ViewOp>,
}

impl View for ZoomPan {
    type V = ZoomPanView;

    open spec fn view(&self) -> ZoomPanView {
        ZoomPanView { zoom_mode: self.zoom_mode, pending: self.pending@ }
    }
}

/// The compare view's state as plain values.
pub struct CompareView {
    pub left_index: usize,
    pub right_index: usize,
    pub active_side: CompareSide,
    pub left_zoom: ZoomPanView,
    pub right_zoom: ZoomPanView,
    pub locked: bool,
}

impl View for CompareState {
    type V = CompareView;

    open spec fn view(&self) -> CompareView {
        CompareView {
            left_index: self.left_index,
            right_index: self.right_index,
            active_side: self.active_side,
            left_zoom: self.left_zoom@,
            right_zoom: self.right_zoom@,
            locked: self.locked,
        }
    }
}

/// The compare view of `left` and `right` as `CompareState::new` makes it:
/// left side active, both sides fitting the window, zoom locked.
pub open spec fn new_compare(left: usize, right: usize) -> CompareView {
    CompareView {
        left_index: left,
        right_index: right,
        active_side: CompareSide::Left,
        left_zoom: ZoomPanView { zoom_mode: ZoomMode::FitWindow, pending: Seq::empty() },
        right_zoom: ZoomPanView { zoom_mode: ZoomMode::FitWindow, pending: Seq::empty() },
        locked: true,
    }
}

/// A dialog as plain values.
pub enum DialogView {
    Rename { original_path: Seq<char>, new_name: Seq<char> },
    CopyTo { source_paths: Seq<Seq<char>>, dest_path: Seq<char> },
    DeleteConfirm { paths: Seq<Seq<char>>, names: Seq<Seq<char>> },
}

pub open spec fn strs(v: Seq<String>) -> Seq<Seq<char>> {
    v.map_values(|s: String| s@)
}

impl View for DialogState {
    type V = DialogView;

    open spec fn view(&self) -> DialogView {
        match self {
            DialogState::Rename { original_path, new_name } => DialogView::Rename {
                original_path: original_path@,
                new_name: new_name@,
            },
            DialogState::CopyTo { source_paths, dest_path } => DialogView::CopyTo {
                source_paths: strs(source_paths@),
                dest_path: dest_path@,
            },
            DialogState::DeleteConfirm { paths, names } => DialogView::DeleteConfirm {
                paths: strs(paths@),
                names: strs(names@),
            },
        }
    }
}

/// The browser state as plain values.
pub struct UiView {
    pub current_dir: Seq<char>,
    pub view_mode: ViewMode,
    pub previous_browse_mode: BrowseMode,
    pub selected_index: usize,
    pub zoom_mode: ZoomMode,
    pub pending_view: Seq<ViewOp>,
    pub scroll_to_selected: bool,
    pub path_bar_focused: bool,
    pub path_bar_text: Seq<char>,
    pub preview_focused: bool,
    pub double_click_enter: Option<usize>,
    pub sort_field: SortField,
    pub sort_ascending: bool,
    pub filter_active: bool,
    pub filter_text: Seq<char>,
    pub filtered_indices: Seq<usize>,
    pub default_zoom_mode: ZoomMode,
    pub pending_edit_action: Option<EditAction>,
    pub multi_selected: Set<usize>,
    pub last_click_index: Option<usize>,
    pub show_info_overlay: bool,
    pub show_metadata_overlay: bool,
    pub show_metadata_popup: bool,
    pub dialog: Option<DialogView>,
    pub animation_frame: usize,
    pub animation_playing: bool,
    pub thumb_size: u32,
    pub compare: Option<CompareView>,
    pub image_filter: ImageFilter,
}

/// Everything the browser keeps between frames, apart from the fractional
/// zoom factor, pan offset, drag position and animation clock, which the user
/// interface keeps and changes through the [`ViewOp`] requests in `pending_view`.
pub struct AppState {
    pub current_dir: String,
    pub view_mode: ViewMode,
    pub previous_browse_mode: BrowseMode,
    pub selected_index: usize,
    pub zoom_mode: ZoomMode,
    pub pending_view: Vec<ViewOp>,
    pub scroll_to_selected: bool,
    pub path_bar_focused: bool,
    pub path_bar_text: String,
    pub preview_focused: bool,
    pub double_click_enter: Option<usize>,
    pub sort_field: SortField,
    pub sort_ascending: bool,
    pub filter_active: bool,
    pub filter_text: String,
    pub filtered_indices: Vec<usize>,
    pub default_zoom_mode: ZoomMode,
    pub pending_edit_action: Option<EditAction>,
    pub multi_selected: BTreeSet<usize>,
    pub last_click_index: Option<usize>,
    pub show_info_overlay: bool,
    pub show_metadata_overlay: bool,
    pub show_metadata_popup: bool,
    pub dialog: Option<DialogState>,
    pub animation_frame: usize,
    pub animation_playing: bool,
    pub thumb_size: u32,
    pub compare: Option<CompareState>,
    pub image_filter: ImageFilter,
}

impl View for AppState {
    type V = UiView;

    open spec fn view(&self) -> UiView {
        UiView {
            current_dir: self.current_dir@,
            view_mode: self.view_mode,
            previous_browse_mode: self.previous_browse_mode,
            selected_index: self.selected_index,
            zoom_mode: self.zoom_mode,
            pending_view: self.pending_view@,
            scroll_to_selected: self.scroll_to_selected,
            path_bar_focused: self.path_bar_focused,
            path_bar_text: self.path_bar_text@,
            preview_focused: self.preview_focused,
            double_click_enter: self.double_click_enter,
            sort_field: self.sort_field,
            sort_ascending: self.sort_ascending,
            filter_active: self.filter_active,
            filter_text: self.filter_text@,
            filtered_indices: self.filtered_indices@,
            default_zoom_mode: self.default_zoom_mode,
            pending_edit_action: self.pending_edit_action,
            multi_selected: self.multi_selected@,
            last_click_index: self.last_click_index,
            show_info_overlay: self.show_info_overlay,
            show_metadata_overlay: self.show_metadata_overlay,
            show_metadata_popup: self.show_metadata_popup,
            dialog: match self.dialog {
                Some(d) => Some(d@),
                None => None,
            },
            animation_frame: self.animation_frame,
            animation_playing: self.animation_playing,
            thumb_size: self.thumb_size,
            compare: match self.compare {
                Some(c) => Some(c@),
                None => None,
            },
            image_filter: self.image_filter,
        }
    }
}

impl UiView {
    /// After `reset_zoom`.
    pub open spec fn reset_zoom(self) -> UiView {
        UiView {
            zoom_mode: self.default_zoom_mode,
            pending_view: self.pending_view.push(ViewOp::ResetLevelAndPan),
            ..self
        }
    }

    /// After `clear_multi_select`.
    pub open spec fn clear_multi(self) -> UiView {
        UiView { multi_selected: Set::empty(), ..self }
    }

    /// The entry index of the selected row (see `resolved_index`).
    pub open spec fn resolved(self) -> usize {
        if self.filter_active && self.filtered_indices.len() > 0 {
            self.filtered_indices[spec_min(
                self.selected_index,
                (self.filtered_indices.len() - 1) as usize,
            ) as int]
        } else {
            self.selected_index
        }
    }

    /// The number of rows shown for a listing of `n` entries.
    pub open spec fn visible(self, n: nat) -> nat {
        if self.filter_active {
            self.filtered_indices.len()
        } else {
            n
        }
    }

    /// After `clear_filter`.
    pub open spec fn clear_filter(self) -> UiView {
        if self.filter_active {
            UiView {
                filter_active: false,
                filter_text: Seq::empty(),
                filtered_indices: Seq::empty(),
                selected_index: self.resolved(),
                ..self
            }
        } else {
            self
        }
    }

    /// After `sync_path_bar`.
    pub open spec fn sync_path_bar(self) -> UiView {
        UiView { path_bar_text: self.current_dir, ..self }
    }
}

impl AppState {
    /// The state of a freshly opened directory `dir`.
    pub open spec fn is_fresh(&self, dir: Seq<char>) -> bool {
        &&& self.current_dir@ == dir
        &&& self.view_mode == ViewMode::List
        &&& self.previous_browse_mode == BrowseMode::List
        &&& self.selected_index == 0
        &&& self.zoom_mode == ZoomMode::FitWindow
        &&& self.pending_view@.len() == 0
        &&& !self.scroll_to_selected
        &&& !self.path_bar_focused
        &&& self.path_bar_text@ == dir
        &&& !self.preview_focused
        &&& self.double_click_enter is None
        &&& self.sort_field == SortField::Name
        &&& self.sort_ascending
        &&& !self.filter_active
        &&& self.filter_text@.len() == 0
        &&& self.filtered_indices@.len() == 0
        &&& self.default_zoom_mode == ZoomMode::FitWindow
        &&& self.pending_edit_action is None
        &&& self.multi_selected@ == Set::<usize>::empty()
        &&& self.last_click_index is None
        &&& !self.show_info_overlay
        &&& !self.show_metadata_overlay
        &&& !self.show_metadata_popup
        &&& self.dialog is None
        &&& self.animation_frame == 0
        &&& self.animation_playing
        &&& self.thumb_size == 160
        &&& self.compare is None
        &&& self.image_filter == ImageFilter::Nearest
    }

    /// Browse `dir` in the list view, first entry selected, sorted by name.
    pub fn new(dir: String) -> (r: Self)
        ensures
            r.is_fresh(dir@),
    {
        let path_bar_text = dir.clone();
        AppState {
            current_dir: dir,
            view_mode: ViewMode::List,
            previous_browse_mode: BrowseMode::List,
            selected_index: 0,
            zoom_mode: ZoomMode::FitWindow,
            pending_view: Vec::new(),
            scroll_to_selected: false,
            path_bar_focused: false,
            path_bar_text,
            preview_focused: false,
            double_click_enter: None,
            sort_field: SortField::Name,
            sort_ascending: true,
            filter_active: false,
            filter_text: String::new(),
            filtered_indices: Vec::new(),
            default_zoom_mode: ZoomMode::FitWindow,
            pending_edit_action: None,
            multi_selected: BTreeSet::new(),
            last_click_index: None,
            show_info_overlay: false,
            show_metadata_overlay: false,
            show_metadata_popup: false,
            dialog: None,
            animation_frame: 0,
            animation_playing: true,
            thumb_size: 160,
            compare: None,
            image_filter: ImageFilter::Nearest,
        }
    }

    /// Show the current directory in the path bar again.
    pub fn sync_path_bar(&mut self)
        ensures
            final(self)@ == old(self)@.sync_path_bar(),
    {
        self.path_bar_text = self.current_dir.clone();
    }

    /// Back to the default zoom mode, zoom factor 1 and no pan.
    pub fn reset_zoom(&mut self)
        ensures
            final(self)@ == old(self)@.reset_zoom(),
    {
        self.zoom_mode = self.default_zoom_mode;
        self.pending_view.push(ViewOp::ResetLevelAndPan);
    }

    /// Is entry `abs` among the multi-selected ones?
    pub fn is_multi_selected(&self, abs: usize) -> (r: bool)
        ensures
            r == self.multi_selected@.contains(abs),
    {
        broadcast use vstd::std_specs::btree::group_btree_axioms, vstd::laws_cmp::group_laws_cmp;
        self.multi_selected.contains(&abs)
    }

    /// Add `abs` to the multi-selection, or take it out if it was in.
    pub fn toggle_select(&mut self, abs: usize)
        ensures
            final(self)@ == (UiView { multi_selected: toggled(old(self)@.multi_selected, abs), ..old(self)@ }),
    {
        broadcast use vstd::std_specs::btree::group_btree_axioms, vstd::laws_cmp::group_laws_cmp;
        let ghost before = self.multi_selected@;
        if !self.multi_selected.remove(&abs) {
            self.multi_selected.insert(abs);
            assert(self.multi_selected@ =~= before.insert(abs));
        } else {
            assert(self.multi_selected@ =~= before.remove(abs));
        }
    }

    /// Add every entry from `from` to `to`, both included, in either order.
    pub fn select_range(&mut self, from: usize, to: usize)
        ensures
            final(self)@ == (UiView {
                multi_selected: old(self)@.multi_selected.union(
                    Set::new(|i: usize| spec_min(from, to) <= i <= spec_max(from, to)),
                ),
                ..old(self)@
            }),
    {
        broadcast use vstd::std_specs::btree::group_btree_axioms, vstd::laws_cmp::group_laws_cmp;
        let (lo, hi) = if from <= to { (from, to) } else { (to, from) };
        let mut i: usize = lo;
        loop
            invariant_except_break
                self.multi_selected@ == old(self).multi_selected@.union(
                    Set::new(|k: usize| lo <= k < i),
                ),
            invariant
                lo <= i <= hi,
                lo == spec_min(from, to),
                hi == spec_max(from, to),
                self@ == (UiView { multi_selected: self@.multi_selected, ..old(self)@ }),
            ensures
                self.multi_selected@ == old(self).multi_selected@.union(
                    Set::new(|k: usize| lo <= k <= hi),
                ),
                self@ == (UiView { multi_selected: self@.multi_selected, ..old(self)@ }),
            decreases hi - i,
        {
            self.multi_selected.insert(i);
            if i == hi {
                assert(old(self).multi_selected@.union(Set::new(|k: usize| lo <= k < i)).insert(i)
                    =~= old(self).multi_selected@.union(Set::new(|k: usize| lo <= k <= hi)));
                break;
            }
            assert(old(self).multi_selected@.union(Set::new(|k: usize| lo <= k < i)).insert(i)
                =~= old(self).multi_selected@.union(Set::new(|k: usize| lo <= k < i + 1)));
            i = i + 1;
        }
    }

    /// Forget the multi-selection.
    pub fn clear_multi_select(&mut self)
        ensures
            final(self)@ == old(self)@.clear_multi(),
    {
        self.multi_selected.clear();
    }

    /// How many entries are multi-selected.
    pub fn multi_select_count(&self) -> (r: usize)
        ensures
            r == self.multi_selected@.len(),
    {
        broadcast use vstd::std_specs::btree::group_btree_axioms, vstd::laws_cmp::group_laws_cmp;
        self.multi_selected.len()
    }

    /// Convert the selected row to an index into the listing: under an active,
    /// non-empty filter the row (clamped to the last match) is looked up in
    /// the matches; otherwise the row is the index.
    pub fn resolved_index(&self) -> (r: usize)
        ensures
            r == self@.resolved(),
    {
        if self.filter_active && !self.filtered_indices.is_empty() {
            let last: usize = self.filtered_indices.len() - 1;
            let row: usize = if self.selected_index < last { self.selected_index } else { last };
            self.filtered_indices[row]
        } else {
            self.selected_index
        }
    }

    /// Number of rows shown: the matches under an active filter, else all entries.
    pub fn visible_count(&self, dir: &DirState) -> (r: usize)
        ensures
            r == self@.visible(dir.entries@.len()),
    {
        if self.filter_active {
            self.filtered_indices.len()
        } else {
            dir.entries.len()
        }
    }

    /// Leave filter mode, keeping the same entry selected.
    pub fn clear_filter(&mut self)
        ensures
            final(self)@ == old(self)@.clear_filter(),
    {
        if self.filter_active {
            let abs = self.resolved_index();
            self.filter_active = false;
            self.filter_text = String::new();
            self.filtered_indices.clear();
            self.selected_index = abs;
            assert(self.filter_text@ =~= Seq::<char>::empty());
            assert(self.filtered_indices@ =~= Seq::<usize>::empty());
        }
    }
}

pub open spec fn spec_min(a: usize, b: usize) -> usize {
    if a <= b { a } else { b }
}

pub open spec fn spec_max(a: usize, b: usize) -> usize {
    if a <= b { b } else { a }
}

/// `s` with `a` taken out if it was in, else put in.
pub open spec fn toggled(s: Set<usize>, a: usize) -> Set<usize> {
    if s.contains(a) {
        s.remove(a)
    } else {
        s.insert(a)
    }
}

/// Cycling the sort field three times comes back to where it started.
pub proof fn law_sort_cycle_period(f: SortField)
    ensures
        f.spec_cycle().spec_cycle().spec_cycle() == f,
        f.spec_cycle() != f,
{
}

/// Cycling a fitting zoom mode four times comes back to it; a custom zoom
/// cycles to fitting the window.
pub proof fn law_zoom_cycle_period(m: ZoomMode)
    ensures
        m != ZoomMode::Custom ==> m.spec_cycle().spec_cycle().spec_cycle().spec_cycle() == m,
        m.spec_cycle() != ZoomMode::Custom,
        m == ZoomMode::Custom ==> m.spec_cycle() == ZoomMode::FitWindow,
{
}

/// Toggling the same entry twice leaves the multi-selection as it was.
pub proof fn law_toggle_twice(s: Set<usize>, a: usize)
    ensures
        toggled(toggled(s, a), a) == s,
        toggled(s, a).contains(a) == !s.contains(a),
{
    assert(toggled(toggled(s, a), a) =~= s);
}

/// Leaving the filter keeps the same entry selected, and leaving it twice is
/// leaving it once.
pub proof fn law_clear_filter_keeps_entry(u: UiView)
    ensures
        u.clear_filter().resolved() == u.resolved(),
        !u.clear_filter().filter_active,
        u.clear_filter().clear_filter() == u.clear_filter(),
{
}

/// A range selection holds both ends and everything between them, whichever
/// end comes first.
pub proof fn law_select_range_symmetric(s: Set<usize>, from: usize, to: usize)
    ensures
        s.union(Set::new(|i: usize| spec_min(from, to) <= i <= spec_max(from, to)))
            == s.union(Set::new(|i: usize| spec_min(to, from) <= i <= spec_max(to, from))),
        s.union(Set::new(|i: usize| spec_min(from, to) <= i <= spec_max(from, to))).contains(from),
        s.union(Set::new(|i: usize| spec_min(from, to) <= i <= spec_max(from, to))).contains(to),
{
    assert(Set::new(|i: usize| spec_min(from, to) <= i <= spec_max(from, to)) =~= Set::new(
        |i: usize| spec_min(to, from) <= i <= spec_max(to, from),
    ));
}

} // verus!
