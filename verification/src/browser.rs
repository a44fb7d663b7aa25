//! What the viewer does around a listing: where Enter and Backspace lead,
//! opening a listing, the name filter, keeping the selection across a
//! re-sort, and which files an action applies to.
use vstd::prelude::*;

use crate::dir::{is_zip, spec_is_zip, views, DirEntry, DirState, EntryView};
use crate::state::{AppState, DialogState, DialogView, EditAction, UiView};
use crate::text::{
    chars_equal, chars_of, contains_chars, file_name_of, join_path, last_index_of, path_file_name,
    path_joined, lowercase, parent_of, path_parent,
    push_str, rfind_char, seq_contains, slice_chars, string_of, to_lowercase, trim_end_char,
    trim_end_chars,
};

verus! {

/// Where a navigation leads.
#[derive(Debug)]
pub enum Destination {
    /// A folder on disk.
    Folder(String),
    /// A folder inside a zip archive: the archive and the folder's prefix
    /// ("" for the archive's root, "sub/" for a folder in it).
    Archive { archive: String, prefix: String },
}

/// A destination as plain values.
pub enum Place {
    Folder(Seq<char>),
    Archive(Seq<char>, Seq<char>),
}

impl View for Destination {
    type V = Place;

    open spec fn view(&self) -> Place {
        match self {
            Destination::Folder(p) => Place::Folder(p@),
            Destination::Archive { archive, prefix } => Place::Archive(archive@, prefix@),
        }
    }
}

/// The zip archive and folder a listing comes from, as plain values.
pub open spec fn zip_of(dir: &DirState) -> Option<(Seq<char>, Seq<char>)> {
    match dir.zip_ctx {
        Some(z) => Some((z.archive_path@, z.inner_prefix@)),
        None => None,
    }
}

/// Where going up leads: from an archive's root to the folder holding the
/// archive ("/" when its path has no parent); from a folder inside an archive
/// to the enclosing folder; from a folder on disk to its parent, if it has one.
pub open spec fn up_place(zip: Option<(Seq<char>, Seq<char>)>, current: Seq<char>) -> Option<Place> {
    match zip {
        Some((a, p)) => if p.len() == 0 {
            Some(
                Place::Folder(
                    match path_parent(a) {
                        Some(q) => q,
                        None => "/"@,
                    },
                ),
            )
        } else {
            let t = trim_end_char(p, '/');
            Some(
                Place::Archive(
                    a,
                    match last_index_of(t, '/') {
                        Some(k) => t.take(k + 1),
                        None => Seq::empty(),
                    },
                ),
            )
        },
        None => match path_parent(current) {
            Some(q) => Some(Place::Folder(q)),
            None => None,
        },
    }
}

/// Where entering entry `idx` leads: ".." goes up; a zip file that exists on
/// disk (`on_disk`) opens at its root; inside an archive a folder opens as
/// the archive's sub-folder; otherwise the entry's folder opens.
pub open spec fn enter_place(
    es: Seq<EntryView>,
    zip: Option<(Seq<char>, Seq<char>)>,
    current: Seq<char>,
    idx: int,
    on_disk: bool,
) -> Option<Place> {
    let e = es[idx];
    if e.name == ".."@ {
        up_place(zip, current)
    } else if spec_is_zip(e.path) && on_disk {
        Some(Place::Archive(e.path, Seq::empty()))
    } else {
        match zip {
            Some((a, p)) => Some(Place::Archive(a, p + e.name + "/"@)),
            None => Some(Place::Folder(e.path)),
        }
    }
}

fn text_of(s: &str) -> (r: String)
    ensures
        r@ == s@,
{
    let mut out = String::new();
    push_str(&mut out, s);
    out
}

/// Where going up from the listing `dir` of the folder `current` leads.
pub fn up_destination(dir: &DirState, current: &str) -> (r: Option<Destination>)
    ensures
        match r {
            Some(d) => up_place(zip_of(dir), current@) == Some(d@),
            None => up_place(zip_of(dir), current@) is None,
        },
{
    match &dir.zip_ctx {
        Some(z) => {
            if chars_of(z.inner_prefix.as_str()).len() == 0 {
                let folder = match parent_of(z.archive_path.as_str()) {
                    Some(q) => q,
                    None => text_of("/"),
                };
                Some(Destination::Folder(folder))
            } else {
                let t = trim_end_chars(&chars_of(z.inner_prefix.as_str()), '/');
                let tl = t.len();
                let prefix = match rfind_char(&t, '/') {
                    Some(k) => {
                        assert(k < tl);
                        let head = slice_chars(&t, 0, k + 1);
                        assert(head@ =~= t@.take(k + 1));
                        string_of(&head)
                    },
                    None => String::new(),
                };
                Some(Destination::Archive { archive: z.archive_path.clone(), prefix })
            }
        },
        None => match parent_of(current) {
            Some(q) => Some(Destination::Folder(q)),
            None => None,
        },
    }
}

/// Where entering entry `idx` of `dir` leads (see `enter_place`);
/// `on_disk` tells whether the entry's path exists on disk.
pub fn enter_destination(dir: &DirState, current: &str, idx: usize, on_disk: bool) -> (r: Option<
    Destination,
>)
    requires
        idx < dir.entries@.len(),
    ensures
        match r {
            Some(d) => enter_place(views(dir.entries@), zip_of(dir), current@, idx as int, on_disk)
                == Some(d@),
            None => enter_place(views(dir.entries@), zip_of(dir), current@, idx as int, on_disk) is None,
        },
{
    let e = &dir.entries[idx];
    assert(views(dir.entries@)[idx as int] == e@);
    if chars_equal(&chars_of(e.name.as_str()), "..") {
        return up_destination(dir, current);
    }
    if is_zip(e.path.as_str()) && on_disk {
        return Some(Destination::Archive { archive: e.path.clone(), prefix: String::new() });
    }
    match &dir.zip_ctx {
        Some(z) => {
            let mut prefix = z.inner_prefix.clone();
            push_str(&mut prefix, e.name.as_str());
            push_str(&mut prefix, "/");
            Some(Destination::Archive { archive: z.archive_path.clone(), prefix })
        },
        None => Some(Destination::Folder(e.path.clone())),
    }
}

/// The text shown as the location of an archive folder: the archive's path,
/// then "!" and the folder's prefix unless it is the root.
pub open spec fn archive_location(archive: Seq<char>, prefix: Seq<char>) -> Seq<char> {
    if prefix.len() == 0 {
        archive
    } else {
        archive + "!"@ + prefix
    }
}

/// See `archive_location`.
pub fn archive_location_text(archive: &str, prefix: &str) -> (r: String)
    ensures
        r@ == archive_location(archive@, prefix@),
{
    let mut out = text_of(archive);
    if chars_of(prefix).len() > 0 {
        push_str(&mut out, "!");
        push_str(&mut out, prefix);
    }
    out
}

/// The first entry that is not a folder, or 0 when every entry is one.
pub open spec fn first_image_index(es: Seq<EntryView>) -> int {
    match crate::input::scan_fwd(es, 0) {
        Some(k) => k,
        None => 0,
    }
}

/// See `first_image_index`.
pub fn first_image(dir: &DirState) -> (r: usize)
    ensures
        r == first_image_index(views(dir.entries@)),
{
    let ghost es = views(dir.entries@);
    let mut j: usize = 0;
    while j < dir.entries.len()
        invariant
            es == views(dir.entries@),
            crate::input::scan_fwd(es, j as int) == crate::input::scan_fwd(es, 0),
        decreases dir.entries@.len() - j,
    {
        assert(es[j as int].is_dir == dir.entries@[j as int].is_dir);
        if !dir.entries[j].is_dir {
            return j;
        }
        j = j + 1;
    }
    0
}

/// The browser after a new listing is shown at `location`: the first image
/// selected (then the filter left, as `clear_filter` does), the path bar
/// showing the location, the preview pane not focused.
pub open spec fn opened(u: UiView, es: Seq<EntryView>, location: Seq<char>) -> UiView {
    let u1 = UiView { current_dir: location, selected_index: first_image_index(es) as usize, ..u };
    UiView { preview_focused: false, ..u1.clear_filter().sync_path_bar() }
}

/// Show the listing `dir` (just read) at `location`: sort it as the browser
/// is sorted, select its first image, leave the filter, show the location in
/// the path bar and give the focus back to the listing.
pub fn open_listing(state: &mut AppState, dir: &mut DirState, location: String)
    ensures
        final(state)@ == opened(old(state)@, views(final(dir).entries@), location@),
        crate::dir::sorted_as(views(old(dir).entries@), views(final(dir).entries@), old(state).sort_field, old(state).sort_ascending),
        final(dir).image_count == old(dir).image_count,
        final(dir).dir_count == old(dir).dir_count,
        final(dir).zip_ctx == old(dir).zip_ctx,
{
    state.current_dir = location;
    dir.sort(state.sort_field, state.sort_ascending);
    state.selected_index = first_image(dir);
    state.clear_filter();
    state.sync_path_bar();
    state.preview_focused = false;
}


// ---------------------------------------------------------------------------
// The name filter
// ---------------------------------------------------------------------------

/// Does the entry name contain the query, both lower-cased?
pub open spec fn name_matches(name: Seq<char>, query: Seq<char>) -> bool {
    seq_contains(lowercase(name), lowercase(query))
}

/// The positions among the first `k` entries whose names match, in order.
pub open spec fn matches_upto(es: Seq<EntryView>, query: Seq<char>, k: int) -> Seq<usize>
    decreases k,
{
    if k <= 0 {
        Seq::empty()
    } else if name_matches(es[k - 1].name, query) {
        matches_upto(es, query, k - 1).push((k - 1) as usize)
    } else {
        matches_upto(es, query, k - 1)
    }
}

/// The positions of the entries whose names match the query, in order.
pub open spec fn matching(es: Seq<EntryView>, query: Seq<char>) -> Seq<usize> {
    matches_upto(es, query, es.len() as int)
}

/// The positions of the entries whose names contain `query`, ignoring case
/// (both are lower-cased with `to_lowercase`).
pub fn filter_indices(dir: &DirState, query: &str) -> (r: Vec<usize>)
    ensures
        r@ == matching(views(dir.entries@), query@),
{
    let q = to_lowercase(query);
    let qc = chars_of(q.as_str());
    let ghost es = views(dir.entries@);
    let mut out: Vec<usize> = Vec::new();
    let mut i: usize = 0;
    while i < dir.entries.len()
        invariant
            0 <= i <= dir.entries@.len(),
            es == views(dir.entries@),
            qc@ == lowercase(query@),
            out@ == matches_upto(es, query@, i as int),
        decreases dir.entries@.len() - i,
    {
        let low = to_lowercase(dir.entries[i].name.as_str());
        assert(es[i as int].name == dir.entries@[i as int].name@);
        if contains_chars(&chars_of(low.as_str()), &qc) {
            out.push(i);
        }
        i = i + 1;
    }
    out
}

/// The browser after the filter is recomputed for the listing: the matches
/// of the filter text, the selected row kept within them (row 0 when there
/// are none). Nothing changes while the filter is off.
pub open spec fn refiltered(u: UiView, es: Seq<EntryView>) -> UiView {
    if !u.filter_active {
        u
    } else {
        let m = matching(es, u.filter_text);
        let sel: usize = if m.len() > 0 {
            if u.selected_index >= m.len() { (m.len() - 1) as usize } else { u.selected_index }
        } else {
            0
        };
        UiView { filtered_indices: m, selected_index: sel, ..u }
    }
}

/// Recompute the filter's matches (see `refiltered`).
pub fn recompute_filter(state: &mut AppState, dir: &DirState)
    ensures
        final(state)@ == refiltered(old(state)@, views(dir.entries@)),
{
    if !state.filter_active {
        return;
    }
    let m = filter_indices(dir, state.filter_text.as_str());
    let count = m.len();
    state.filtered_indices = m;
    if count > 0 {
        if state.selected_index >= count {
            state.selected_index = count - 1;
        }
    } else {
        state.selected_index = 0;
    }
}

/// The positions `0..n`.
pub open spec fn all_rows(n: nat) -> Seq<usize> {
    Seq::new(n, |i: int| i as usize)
}

/// The browser when the filter box opens: every entry matches the empty
/// text, the first row is selected and scrolled to.
pub open spec fn filter_started(u: UiView, n: nat) -> UiView {
    UiView {
        filter_active: true,
        filter_text: Seq::empty(),
        filtered_indices: all_rows(n),
        selected_index: 0,
        scroll_to_selected: true,
        ..u
    }
}

/// Open the filter box (see `filter_started`).
pub fn start_filter(state: &mut AppState, dir: &DirState)
    ensures
        final(state)@ == filter_started(old(state)@, dir.entries@.len()),
{
    state.filter_active = true;
    state.filter_text = String::new();
    let n = dir.entries.len();
    let mut rows: Vec<usize> = Vec::new();
    let mut i: usize = 0;
    while i < n
        invariant
            0 <= i <= n,
            rows@ == all_rows(i as nat),
        decreases n - i,
    {
        rows.push(i);
        assert(rows@ =~= all_rows((i + 1) as nat));
        i = i + 1;
    }
    state.filtered_indices = rows;
    state.selected_index = 0;
    state.scroll_to_selected = true;
    assert(state@.filter_text =~= Seq::<char>::empty());
}

// ---------------------------------------------------------------------------
// Keeping the selection
// ---------------------------------------------------------------------------

/// The first position of an entry named `name`.
pub open spec fn position_named(es: Seq<EntryView>, name: Seq<char>) -> Option<int> {
    if exists|i: int| 0 <= i < es.len() && es[i].name == name {
        Some(choose|i: int| 0 <= i < es.len() && es[i].name == name && forall|j: int| 0 <= j < i ==> es[j].name != name)
    } else {
        None
    }
}

fn same_text(a: &str, b: &str) -> (r: bool)
    ensures
        r == (a@ == b@),
{
    chars_equal(&chars_of(a), b)
}

/// The first position of an entry named `name`, if any.
pub fn find_named(dir: &DirState, name: &str) -> (r: Option<usize>)
    ensures
        match r {
            Some(i) => position_named(views(dir.entries@), name@) == Some(i as int),
            None => position_named(views(dir.entries@), name@) is None,
        },
{
    let ghost es = views(dir.entries@);
    let mut i: usize = 0;
    while i < dir.entries.len()
        invariant
            0 <= i <= dir.entries@.len(),
            es == views(dir.entries@),
            forall|j: int| 0 <= j < i ==> es[j].name != name@,
        decreases dir.entries@.len() - i,
    {
        assert(es[i as int].name == dir.entries@[i as int].name@);
        if same_text(dir.entries[i].name.as_str(), name) {
            proof {
                let w = choose|k: int| 0 <= k < es.len() && es[k].name == name@ && forall|j: int|
                    0 <= j < k ==> es[j].name != name@;
                assert(0 <= i < es.len() && es[i as int].name == name@ && forall|j: int|
                    0 <= j < i ==> es[j].name != name@);
                if w < i {
                } else if w > i {
                    assert(es[i as int].name != name@);
                }
            }
            return Some(i);
        }
        i = i + 1;
    }
    None
}

/// The first position of `x` in `s`.
pub open spec fn position_of(s: Seq<usize>, x: usize) -> Option<int> {
    if s.contains(x) {
        Some(choose|i: int| 0 <= i < s.len() && s[i] == x && forall|j: int| 0 <= j < i ==> s[j] != x)
    } else {
        None
    }
}

fn find_index(v: &Vec<usize>, x: usize) -> (r: Option<usize>)
    ensures
        match r {
            Some(i) => position_of(v@, x) == Some(i as int),
            None => position_of(v@, x) is None,
        },
{
    let mut i: usize = 0;
    while i < v.len()
        invariant
            0 <= i <= v@.len(),
            forall|j: int| 0 <= j < i ==> v@[j] != x,
        decreases v@.len() - i,
    {
        if v[i] == x {
            proof {
                let w = choose|k: int| 0 <= k < v@.len() && v@[k] == x && forall|j: int|
                    0 <= j < k ==> v@[j] != x;
                assert(0 <= i < v@.len() && v@[i as int] == x && forall|j: int|
                    0 <= j < i ==> v@[j] != x);
                if w < i {
                } else if w > i {
                    assert(v@[i as int] != x);
                }
            }
            return Some(i);
        }
        i = i + 1;
    }
    None
}

/// The name of the selected entry, if the selection is on one.
pub open spec fn selected_name(u: UiView, es: Seq<EntryView>) -> Option<Seq<char>> {
    let abs = u.resolved();
    if abs < es.len() {
        Some(es[abs as int].name)
    } else {
        None
    }
}

/// See `selected_name`.
pub fn current_name(state: &AppState, dir: &DirState) -> (r: Option<String>)
    ensures
        match r {
            Some(n) => selected_name(state@, views(dir.entries@)) == Some(n@),
            None => selected_name(state@, views(dir.entries@)) is None,
        },
{
    let abs = state.resolved_index();
    if abs < dir.entries.len() {
        assert(views(dir.entries@)[abs as int].name == dir.entries@[abs as int].name@);
        Some(dir.entries[abs].name.clone())
    } else {
        None
    }
}

/// After the listing was sorted again with the S key: the entry that was
/// selected (named `name`) is selected again, through the filter when it is
/// on (the filter then recomputed), and scrolled to.
pub open spec fn reselected_after_key(u: UiView, es: Seq<EntryView>, name: Option<Seq<char>>) -> UiView {
    let u1 = match name {
        Some(n) => match position_named(es, n) {
            Some(pos) => if u.filter_active {
                let f = refiltered(u, es);
                match position_of(f.filtered_indices, pos as usize) {
                    Some(vis) => UiView { selected_index: vis as usize, ..f },
                    None => f,
                }
            } else {
                UiView { selected_index: pos as usize, ..u }
            },
            None => u,
        },
        None => u,
    };
    UiView { scroll_to_selected: true, ..u1 }
}

/// Select again the entry named `name`, if any, after a re-sort with the S
/// key (see `reselected_after_key`).
pub fn reselect_after_key(state: &mut AppState, dir: &DirState, name: Option<String>)
    ensures
        final(state)@ == reselected_after_key(
            old(state)@,
            views(dir.entries@),
            match name {
                Some(n) => Some(n@),
                None => None,
            },
        ),
{
    match name {
        Some(n) => match find_named(dir, n.as_str()) {
            Some(pos) => {
                if state.filter_active {
                    recompute_filter(state, dir);
                    match find_index(&state.filtered_indices, pos) {
                        Some(vis) => {
                            state.selected_index = vis;
                        },
                        None => {},
                    }
                } else {
                    state.selected_index = pos;
                }
            },
            None => {},
        },
        None => {},
    }
    state.scroll_to_selected = true;
}

/// Select again the entry named `name`, if any: after a refresh, and after a
/// re-sort from the menu (which then also scrolls to it).
pub open spec fn reselected(u: UiView, es: Seq<EntryView>, name: Option<Seq<char>>) -> UiView {
    match name {
        Some(n) => match position_named(es, n) {
            Some(pos) => UiView { selected_index: pos as usize, ..u },
            None => u,
        },
        None => u,
    }
}

/// See `reselected`.
pub fn reselect(state: &mut AppState, dir: &DirState, name: Option<String>)
    ensures
        final(state)@ == reselected(
            old(state)@,
            views(dir.entries@),
            match name {
                Some(n) => Some(n@),
                None => None,
            },
        ),
{
    match name {
        Some(n) => match find_named(dir, n.as_str()) {
            Some(pos) => {
                state.selected_index = pos;
            },
            None => {},
        },
        None => {},
    }
}


/// Sort the listing again after the S key, keeping the selected entry
/// selected (see `reselected_after_key`).
pub fn resort_after_key(state: &mut AppState, dir: &mut DirState)
    ensures
        crate::dir::sorted_as(views(old(dir).entries@), views(final(dir).entries@), old(state).sort_field, old(state).sort_ascending),
        final(state)@ == reselected_after_key(
            old(state)@,
            views(final(dir).entries@),
            selected_name(old(state)@, views(old(dir).entries@)),
        ),
        final(dir).image_count == old(dir).image_count,
        final(dir).dir_count == old(dir).dir_count,
        final(dir).zip_ctx == old(dir).zip_ctx,
{
    let name = current_name(state, dir);
    dir.sort(state.sort_field, state.sort_ascending);
    reselect_after_key(state, dir, name);
}

/// Sort the listing again after a choice in the Sort menu, keeping the
/// selected entry selected and scrolling to it.
pub fn resort_from_menu(state: &mut AppState, dir: &mut DirState)
    ensures
        crate::dir::sorted_as(views(old(dir).entries@), views(final(dir).entries@), old(state).sort_field, old(state).sort_ascending),
        final(state)@ == (UiView {
            scroll_to_selected: true,
            ..reselected(old(state)@, views(final(dir).entries@), selected_name(old(state)@, views(old(dir).entries@)))
        }),
        final(dir).image_count == old(dir).image_count,
        final(dir).dir_count == old(dir).dir_count,
        final(dir).zip_ctx == old(dir).zip_ctx,
{
    let name = current_name(state, dir);
    dir.sort(state.sort_field, state.sort_ascending);
    reselect(state, dir, name);
    state.scroll_to_selected = true;
}

/// After a folder is read again (as `dir`, in the order it was read): sort
/// it, select the entry named `name` again when it is still there, and drop
/// the multi-selection.
pub fn refresh_listing(state: &mut AppState, dir: &mut DirState, name: Option<String>)
    ensures
        crate::dir::sorted_as(views(old(dir).entries@), views(final(dir).entries@), old(state).sort_field, old(state).sort_ascending),
        final(state)@ == reselected(
            old(state)@,
            views(final(dir).entries@),
            match name {
                Some(n) => Some(n@),
                None => None,
            },
        ).clear_multi(),
        final(dir).image_count == old(dir).image_count,
        final(dir).dir_count == old(dir).dir_count,
        final(dir).zip_ctx == old(dir).zip_ctx,
{
    dir.sort(state.sort_field, state.sort_ascending);
    reselect(state, dir, name);
    state.clear_multi_select();
}

/// The Zoom Mode menu: the mode becomes the default too, at zoom factor 1
/// and without pan.
pub fn choose_zoom_mode(state: &mut AppState, mode: crate::state::ZoomMode)
    ensures
        final(state)@ == (UiView {
            zoom_mode: mode,
            default_zoom_mode: mode,
            pending_view: old(state)@.pending_view.push(crate::state::ViewOp::ResetLevelAndPan),
            ..old(state)@
        }),
{
    state.zoom_mode = mode;
    state.default_zoom_mode = mode;
    state.pending_view.push(crate::state::ViewOp::ResetLevelAndPan);
}

/// The Interpolation menu: say whether the filter changed, in which case
/// the full-size textures must be made again.
pub fn choose_image_filter(state: &mut AppState, f: crate::state::ImageFilter) -> (changed: bool)
    ensures
        final(state)@ == (UiView { image_filter: f, ..old(state)@ }),
        changed == (old(state).image_filter != f),
{
    let changed = state.image_filter != f;
    state.image_filter = f;
    changed
}

/// Which items of the Edit menu are offered.
pub struct EditMenu {
    /// The selection is on an entry.
    pub has_selection: bool,
    /// Rename, metadata and rotation: one file, no multi-selection.
    pub single_enabled: bool,
    /// Copying, opening in a tool and deleting: a file.
    pub file_enabled: bool,
}

/// See `EditMenu`.
pub open spec fn edit_menu_spec(u: UiView, es: Seq<EntryView>) -> (bool, bool, bool) {
    let abs = u.resolved();
    let present = abs < es.len();
    let is_dir = present && es[abs as int].is_dir;
    let multi = u.multi_selected.len() > 0;
    (present, !(!present || is_dir || multi), !(!present || is_dir))
}

/// See `EditMenu`.
pub fn edit_menu(state: &AppState, dir: &DirState) -> (r: EditMenu)
    ensures
        (r.has_selection, r.single_enabled, r.file_enabled) == edit_menu_spec(state@, views(dir.entries@)),
{
    let abs = state.resolved_index();
    let present = abs < dir.entries.len();
    let is_dir = if present {
        assert(views(dir.entries@)[abs as int].is_dir == dir.entries@[abs as int].is_dir);
        dir.entries[abs].is_dir
    } else {
        false
    };
    let multi = state.multi_select_count() > 0;
    EditMenu { has_selection: present, single_enabled: !(!present || is_dir || multi), file_enabled: !(!present || is_dir) }
}

/// The entry whose metadata is shown: the selected entry when it is a file
/// on disk (not read from an archive).
pub open spec fn metadata_entry(u: UiView, es: Seq<EntryView>) -> Option<usize> {
    let abs = u.resolved();
    if abs < es.len() && !es[abs as int].is_dir && es[abs as int].zip_source is None {
        Some(abs)
    } else {
        None
    }
}

/// See `metadata_entry`.
pub fn metadata_entry_index(state: &AppState, dir: &DirState) -> (r: Option<usize>)
    ensures
        r == metadata_entry(state@, views(dir.entries@)),
{
    let abs = state.resolved_index();
    if abs < dir.entries.len() {
        assert(views(dir.entries@)[abs as int] == dir.entries@[abs as int]@);
        if !dir.entries[abs].is_dir && dir.entries[abs].zip_source.is_none() {
            return Some(abs);
        }
    }
    None
}

// ---------------------------------------------------------------------------
// The files an action applies to, and the edit actions
// ---------------------------------------------------------------------------

/// The paths of the multi-selected entries among the first `k` that are
/// files, in listing order.
pub open spec fn picked_upto(es: Seq<EntryView>, picked: Set<usize>, k: int) -> Seq<Seq<char>>
    decreases k,
{
    if k <= 0 {
        Seq::empty()
    } else if picked.contains((k - 1) as usize) && !es[k - 1].is_dir {
        picked_upto(es, picked, k - 1).push(es[k - 1].path)
    } else {
        picked_upto(es, picked, k - 1)
    }
}

/// The files an action applies to: with a multi-selection, its entries that
/// are in the listing and are files, in listing order; else the selected
/// entry if it is a file; else none.
pub open spec fn selected_file_paths(u: UiView, es: Seq<EntryView>) -> Seq<Seq<char>> {
    if u.multi_selected.len() > 0 {
        picked_upto(es, u.multi_selected, es.len() as int)
    } else {
        let abs = u.resolved();
        if abs < es.len() && !es[abs as int].is_dir {
            seq![es[abs as int].path]
        } else {
            Seq::empty()
        }
    }
}

pub open spec fn texts(v: Seq<String>) -> Seq<Seq<char>> {
    v.map_values(|s: String| s@)
}

/// See `selected_file_paths`.
pub fn selected_paths(state: &AppState, dir: &DirState) -> (r: Vec<String>)
    ensures
        texts(r@) == selected_file_paths(state@, views(dir.entries@)),
{
    let ghost es = views(dir.entries@);
    let mut out: Vec<String> = Vec::new();
    if state.multi_select_count() > 0 {
        let mut i: usize = 0;
        while i < dir.entries.len()
            invariant
                0 <= i <= dir.entries@.len(),
                es == views(dir.entries@),
                texts(out@) == picked_upto(es, state@.multi_selected, i as int),
            decreases dir.entries@.len() - i,
        {
            assert(es[i as int] == dir.entries@[i as int]@);
            if state.is_multi_selected(i) && !dir.entries[i].is_dir {
                out.push(dir.entries[i].path.clone());
                assert(texts(out@) =~= picked_upto(es, state@.multi_selected, i as int).push(es[i as int].path));
            }
            i = i + 1;
        }
        out
    } else {
        let abs = state.resolved_index();
        if abs < dir.entries.len() && !dir.entries[abs].is_dir {
            assert(es[abs as int] == dir.entries@[abs as int]@);
            out.push(dir.entries[abs].path.clone());
            assert(texts(out@) =~= seq![es[abs as int].path]);
        } else {
            assert(texts(out@) =~= Seq::<Seq<char>>::empty());
        }
        out
    }
}

/// The file names of `paths`, skipping paths that have none.
pub open spec fn file_names_upto(paths: Seq<Seq<char>>, k: int) -> Seq<Seq<char>>
    decreases k,
{
    if k <= 0 {
        Seq::empty()
    } else {
        match path_file_name(paths[k - 1]) {
            Some(n) => file_names_upto(paths, k - 1).push(n),
            None => file_names_upto(paths, k - 1),
        }
    }
}

pub open spec fn file_names(paths: Seq<Seq<char>>) -> Seq<Seq<char>> {
    file_names_upto(paths, paths.len() as int)
}

/// The file names of `paths` (see `file_names`).
pub fn names_of(paths: &Vec<String>) -> (r: Vec<String>)
    ensures
        texts(r@) == file_names(texts(paths@)),
{
    let ghost ps = texts(paths@);
    let mut out: Vec<String> = Vec::new();
    let mut i: usize = 0;
    while i < paths.len()
        invariant
            0 <= i <= paths@.len(),
            ps == texts(paths@),
            texts(out@) == file_names_upto(ps, i as int),
        decreases paths@.len() - i,
    {
        match file_name_of(paths[i].as_str()) {
            Some(n) => {
                out.push(n);
                assert(texts(out@) =~= file_names_upto(ps, i as int).push(n@));
            },
            None => {},
        }
        i = i + 1;
    }
    out
}

/// What an edit action asks of the outside world.
#[derive(Debug)]
pub enum EditCommand {
    /// Nothing more to do.
    Done,
    /// Rotate the image file by a quarter turn and save it.
    Rotate { path: String, clockwise: bool },
    /// Start the external program configured for `tool` on the file.
    OpenWith { tool: String, path: String },
    /// Put the path on the clipboard.
    CopyPath(String),
}

/// A command as plain values.
pub enum CommandView {
    Done,
    Rotate(Seq<char>, bool),
    OpenWith(Seq<char>, Seq<char>),
    CopyPath(Seq<char>),
}

impl View for EditCommand {
    type V = CommandView;

    open spec fn view(&self) -> CommandView {
        match self {
            EditCommand::Done => CommandView::Done,
            EditCommand::Rotate { path, clockwise } => CommandView::Rotate(path@, *clockwise),
            EditCommand::OpenWith { tool, path } => CommandView::OpenWith(tool@, path@),
            EditCommand::CopyPath(p) => CommandView::CopyPath(p@),
        }
    }
}

/// Comparing from the menu: the two multi-selected entries when both are
/// files, else the entry at `abs` and the next file after it.
pub open spec fn menu_compare(u: UiView, es: Seq<EntryView>, abs: usize) -> UiView {
    if u.multi_selected.len() == 2 {
        crate::input::compare_pair_spec(u, es)
    } else {
        match crate::input::scan_fwd(es, abs + 1) {
            Some(right) => crate::input::open_compare_spec(u, abs, right as usize),
            None => u,
        }
    }
}

/// What an edit action does to the selected entry `es[abs]`: nothing when
/// there is none; file operations are refused on entries read from a zip
/// archive (all but copying to a folder, metadata, copying the path and
/// comparing). Rename, copy and delete open their dialog (copy and delete
/// only when some file is selected); metadata shows or hides its window.
pub open spec fn edit_outcome(u: UiView, es: Seq<EntryView>, a: EditAction) -> (UiView, CommandView) {
    let abs = u.resolved();
    if abs >= es.len() {
        (u, CommandView::Done)
    } else {
        let e = es[abs as int];
        let zipped = e.zip_source is Some;
        match a {
            EditAction::Rename => if zipped {
                (u, CommandView::Done)
            } else {
                (
                    UiView { dialog: Some(DialogView::Rename { original_path: e.path, new_name: e.name }), ..u },
                    CommandView::Done,
                )
            },
            EditAction::CopyTo => {
                let paths = selected_file_paths(u, es);
                if paths.len() == 0 {
                    (u, CommandView::Done)
                } else {
                    (
                        UiView { dialog: Some(DialogView::CopyTo { source_paths: paths, dest_path: u.current_dir }), ..u },
                        CommandView::Done,
                    )
                }
            },
            EditAction::ViewMetadata => (UiView { show_metadata_popup: !u.show_metadata_popup, ..u }, CommandView::Done),
            EditAction::RotateLeft => if zipped { (u, CommandView::Done) } else { (u, CommandView::Rotate(e.path, false)) },
            EditAction::RotateRight => if zipped { (u, CommandView::Done) } else { (u, CommandView::Rotate(e.path, true)) },
            EditAction::OpenInGimp => if zipped { (u, CommandView::Done) } else { (u, CommandView::OpenWith("gimp"@, e.path)) },
            EditAction::OpenInKrita => if zipped { (u, CommandView::Done) } else { (u, CommandView::OpenWith("krita"@, e.path)) },
            EditAction::Delete => {
                let paths = selected_file_paths(u, es);
                if zipped || paths.len() == 0 {
                    (u, CommandView::Done)
                } else {
                    (
                        UiView { dialog: Some(DialogView::DeleteConfirm { paths, names: file_names(paths) }), ..u },
                        CommandView::Done,
                    )
                }
            },
            EditAction::CopyPath => (u, CommandView::CopyPath(e.path)),
            EditAction::Compare => (menu_compare(u, es, abs), CommandView::Done),
        }
    }
}

fn set_dialog(state: &mut AppState, d: DialogState)
    ensures
        final(state)@ == (UiView { dialog: Some(d@), ..old(state)@ }),
{
    state.dialog = Some(d);
}

/// Carry out an edit action on the browser (see `edit_outcome`) and say what
/// is left for the outside world to do. Comparing the two multi-selected
/// entries (when the selection is on an entry) looks them up in the
/// listing, so they must lie in it.
pub fn dispatch_edit_action(state: &mut AppState, dir: &DirState, a: EditAction) -> (r: EditCommand)
    requires
        a == EditAction::Compare && old(state)@.resolved() < dir.entries@.len()
            ==> crate::input::compare_pair_in_range(old(state)@, dir.entries@.len()),
    ensures
        (final(state)@, r@) == edit_outcome(old(state)@, views(dir.entries@), a),
{
    let ghost es = views(dir.entries@);
    let abs = state.resolved_index();
    if abs >= dir.entries.len() {
        return EditCommand::Done;
    }
    assert(es[abs as int] == dir.entries@[abs as int]@);
    let zipped = dir.entries[abs].zip_source.is_some();
    let path = dir.entries[abs].path.clone();
    match a {
        EditAction::Rename => {
            if !zipped {
                let name = dir.entries[abs].name.clone();
                set_dialog(state, DialogState::Rename { original_path: path, new_name: name });
            }
            EditCommand::Done
        },
        EditAction::CopyTo => {
            let paths = selected_paths(state, dir);
            if paths.len() > 0 {
                let dest = state.current_dir.clone();
                set_dialog(state, DialogState::CopyTo { source_paths: paths, dest_path: dest });
            }
            EditCommand::Done
        },
        EditAction::ViewMetadata => {
            state.show_metadata_popup = !state.show_metadata_popup;
            EditCommand::Done
        },
        EditAction::RotateLeft => if zipped {
            EditCommand::Done
        } else {
            EditCommand::Rotate { path, clockwise: false }
        },
        EditAction::RotateRight => if zipped {
            EditCommand::Done
        } else {
            EditCommand::Rotate { path, clockwise: true }
        },
        EditAction::OpenInGimp => if zipped {
            EditCommand::Done
        } else {
            EditCommand::OpenWith { tool: text_of("gimp"), path }
        },
        EditAction::OpenInKrita => if zipped {
            EditCommand::Done
        } else {
            EditCommand::OpenWith { tool: text_of("krita"), path }
        },
        EditAction::Delete => {
            if !zipped {
                let paths = selected_paths(state, dir);
                if paths.len() > 0 {
                    let names = names_of(&paths);
                    set_dialog(state, DialogState::DeleteConfirm { paths, names });
                }
            }
            EditCommand::Done
        },
        EditAction::CopyPath => EditCommand::CopyPath(path),
        EditAction::Compare => {
            if state.multi_select_count() == 2 {
                crate::input::compare_pair(state, dir);
            } else {
                match crate::input::next_image(dir, abs + 1) {
                    Some(right) => crate::input::open_compare(state, abs, right),
                    None => {},
                }
            }
            EditCommand::Done
        },
    }
}


// ---------------------------------------------------------------------------
// Pointer clicks on rows, the Go menu, prefetching
// ---------------------------------------------------------------------------

/// A click on the row `row` showing entry `abs`: with the command key the
/// entry joins or leaves the multi-selection; with shift the entries from
/// the last clicked one (or this one) to this one join it and the row is
/// selected; a plain click selects the row alone, gives the focus to the
/// listing and resets the zoom. The entry becomes the last clicked one.
pub open spec fn clicked(u: UiView, abs: usize, row: usize, command: bool, shift: bool) -> UiView {
    let u1 = if command {
        UiView { multi_selected: crate::state::toggled(u.multi_selected, abs), ..u }
    } else if shift {
        let anchor = match u.last_click_index {
            Some(a) => a,
            None => abs,
        };
        UiView {
            multi_selected: u.multi_selected.union(
                Set::new(|i: usize| crate::state::spec_min(anchor, abs) <= i <= crate::state::spec_max(anchor, abs)),
            ),
            selected_index: row,
            ..u
        }
    } else {
        UiView { selected_index: row, preview_focused: false, ..u.clear_multi() }.reset_zoom()
    };
    UiView { last_click_index: Some(abs), ..u1 }
}

fn click_shift(state: &mut AppState, abs: usize, row: usize)
    ensures
        ({
            let u = old(state)@;
            let anchor = match u.last_click_index {
                Some(a) => a,
                None => abs,
            };
            final(state)@ == UiView {
                multi_selected: u.multi_selected.union(
                    Set::new(|i: usize| crate::state::spec_min(anchor, abs) <= i <= crate::state::spec_max(anchor, abs)),
                ),
                selected_index: row,
                ..u
            }
        }),
{
    let anchor = match state.last_click_index {
        Some(a) => a,
        None => abs,
    };
    state.select_range(anchor, abs);
    state.selected_index = row;
}

fn click_plain(state: &mut AppState, row: usize)
    ensures
        final(state)@ == (UiView { selected_index: row, preview_focused: false, ..old(state)@.clear_multi() }).reset_zoom(),
{
    state.clear_multi_select();
    state.selected_index = row;
    state.preview_focused = false;
    state.reset_zoom();
}

fn set_last_click(state: &mut AppState, abs: usize)
    ensures
        final(state)@ == (UiView { last_click_index: Some(abs), ..old(state)@ }),
{
    state.last_click_index = Some(abs);
}

/// See `clicked`.
pub fn click_row(state: &mut AppState, abs: usize, row: usize, command: bool, shift: bool)
    ensures
        final(state)@ == clicked(old(state)@, abs, row, command, shift),
{
    if command {
        state.toggle_select(abs);
    } else if shift {
        click_shift(state, abs, row);
    } else {
        click_plain(state, row);
    }
    set_last_click(state, abs);
}

/// A double click on an image row of the list: the image is shown alone,
/// coming back to the list.
pub open spec fn double_clicked_image(u: UiView, abs: usize) -> UiView {
    UiView {
        selected_index: abs,
        view_mode: crate::state::ViewMode::Single,
        previous_browse_mode: crate::state::BrowseMode::List,
        ..u.clear_multi()
    }.reset_zoom()
}

/// See `double_clicked_image`.
pub fn double_click_image(state: &mut AppState, abs: usize)
    ensures
        final(state)@ == double_clicked_image(old(state)@, abs),
{
    state.clear_multi_select();
    state.selected_index = abs;
    state.view_mode = crate::state::ViewMode::Single;
    state.previous_browse_mode = crate::state::BrowseMode::List;
    state.reset_zoom();
}

/// A double click on row `row` (entry `abs`) of the grid or of the filtered
/// list: the row is selected alone, and a folder is entered on the next frame.
pub open spec fn double_clicked_row(u: UiView, abs: usize, row: usize, is_dir: bool) -> UiView {
    let u1 = UiView { selected_index: row, ..u.clear_multi() };
    if is_dir {
        UiView { double_click_enter: Some(abs), ..u1 }
    } else {
        u1
    }
}

/// See `double_clicked_row`.
pub fn double_click_row(state: &mut AppState, abs: usize, row: usize, is_dir: bool)
    ensures
        final(state)@ == double_clicked_row(old(state)@, abs, row, is_dir),
{
    state.clear_multi_select();
    state.selected_index = row;
    if is_dir {
        state.double_click_enter = Some(abs);
    }
}

/// The positions of the folders and of the files of a listing, in order.
pub open spec fn positions_where(es: Seq<EntryView>, dirs: bool, k: int) -> Seq<usize>
    decreases k,
{
    if k <= 0 {
        Seq::empty()
    } else if es[k - 1].is_dir == dirs {
        positions_where(es, dirs, k - 1).push((k - 1) as usize)
    } else {
        positions_where(es, dirs, k - 1)
    }
}

/// The folders' and the files' positions in the listing, each in order.
pub fn split_positions(dir: &DirState) -> (r: (Vec<usize>, Vec<usize>))
    ensures
        r.0@ == positions_where(views(dir.entries@), true, dir.entries@.len() as int),
        r.1@ == positions_where(views(dir.entries@), false, dir.entries@.len() as int),
{
    let ghost es = views(dir.entries@);
    let mut dirs: Vec<usize> = Vec::new();
    let mut files: Vec<usize> = Vec::new();
    let mut i: usize = 0;
    while i < dir.entries.len()
        invariant
            0 <= i <= dir.entries@.len(),
            es == views(dir.entries@),
            dirs@ == positions_where(es, true, i as int),
            files@ == positions_where(es, false, i as int),
        decreases dir.entries@.len() - i,
    {
        assert(es[i as int].is_dir == dir.entries@[i as int].is_dir);
        if dir.entries[i].is_dir {
            dirs.push(i);
        } else {
            files.push(i);
        }
        i = i + 1;
    }
    (dirs, files)
}

/// Which row the Go menu moves to.
pub enum GoTarget {
    Next,
    Previous,
    First,
    Last,
}

/// The row `k` selected and scrolled to, the zoom reset.
pub open spec fn moved_to(u: UiView, k: int) -> UiView {
    UiView { selected_index: k as usize, scroll_to_selected: true, ..u }.reset_zoom()
}

/// The Go menu among `total` rows: the next or previous row when there is
/// one (nothing happens otherwise), the first row, or the last row (the
/// first when there are none).
pub open spec fn went(u: UiView, total: nat, t: GoTarget) -> UiView {
    match t {
        GoTarget::Next => if u.selected_index + 1 < total { moved_to(u, u.selected_index + 1) } else { u },
        GoTarget::Previous => if u.selected_index > 0 { moved_to(u, u.selected_index - 1) } else { u },
        GoTarget::First => moved_to(u, 0),
        GoTarget::Last => moved_to(u, if total > 0 { total - 1 } else { 0 }),
    }
}

fn move_to(state: &mut AppState, k: usize)
    ensures
        final(state)@ == moved_to(old(state)@, k as int),
{
    state.selected_index = k;
    state.scroll_to_selected = true;
    state.reset_zoom();
}

/// See `went`.
pub fn go(state: &mut AppState, dir: &DirState, t: GoTarget)
    ensures
        final(state)@ == went(old(state)@, old(state)@.visible(dir.entries@.len()), t),
{
    let total = state.visible_count(dir);
    match t {
        GoTarget::Next => {
            if total > 0 && state.selected_index < total - 1 {
                move_to(state, state.selected_index + 1);
            }
        },
        GoTarget::Previous => {
            if state.selected_index > 0 {
                move_to(state, state.selected_index - 1);
            }
        },
        GoTarget::First => move_to(state, 0),
        GoTarget::Last => move_to(state, if total > 0 { total - 1 } else { 0 }),
    }
}

/// The entries near `base` at the offsets `deltas`, in that order, that lie
/// in the listing and are files.
pub open spec fn near_files(es: Seq<EntryView>, base: int, deltas: Seq<int>) -> Seq<usize>
    decreases deltas.len(),
{
    if deltas.len() == 0 {
        Seq::empty()
    } else {
        let rest = near_files(es, base, deltas.drop_last());
        let t = base + deltas.last();
        if 0 <= t < es.len() && !es[t].is_dir {
            rest.push(t as usize)
        } else {
            rest
        }
    }
}

/// The entries whose full images are worth decoding ahead, in the order to
/// request them: the neighbours of the shown image in the single view; the
/// selected entry and its neighbours in the browse views; both compared
/// images and their neighbours in the compare view.
pub open spec fn prefetch_order(u: UiView, es: Seq<EntryView>) -> Seq<usize> {
    let idx = u.resolved() as int;
    match u.view_mode {
        crate::state::ViewMode::Single => near_files(es, idx, seq![-1int, 1, -2, 2]),
        crate::state::ViewMode::Compare => match u.compare {
            Some(c) => near_files(es, c.left_index as int, seq![0int, -1, 1]) + near_files(
                es,
                c.right_index as int,
                seq![0int, -1, 1],
            ),
            None => Seq::empty(),
        },
        _ => near_files(es, idx, seq![0int, -1, 1, -2, 2]),
    }
}

fn push_near(out: &mut Vec<usize>, dir: &DirState, base: usize, delta: i8)
    requires
        -2 <= delta <= 2,
    ensures
        ({
            let es = views(dir.entries@);
            let t = base + delta;
            final(out)@ == if 0 <= t < es.len() && !es[t].is_dir {
                old(out)@.push(t as usize)
            } else {
                old(out)@
            }
        }),
{
    let n = dir.entries.len();
    let t: usize = if delta >= 0 {
        let d: usize = if delta == 0 {
            0
        } else if delta == 1 {
            1
        } else {
            2
        };
        if base >= n || n - base <= d {
            return;
        }
        base + d
    } else {
        let back: usize = if delta == -1 {
            1
        } else {
            2
        };
        if base < back || base - back >= n {
            return;
        }
        base - back
    };
    assert(views(dir.entries@)[t as int].is_dir == dir.entries@[t as int].is_dir);
    if !dir.entries[t].is_dir {
        out.push(t);
    }
}

fn near_files_exec(dir: &DirState, base: usize, deltas: &[i8]) -> (r: Vec<usize>)
    requires
        forall|k: int| 0 <= k < deltas@.len() ==> -2 <= #[trigger] deltas@[k] <= 2,
    ensures
        r@ == near_files(views(dir.entries@), base as int, deltas@.map_values(|d: i8| d as int)),
{
    let ghost ds = deltas@.map_values(|d: i8| d as int);
    let mut out: Vec<usize> = Vec::new();
    let mut k: usize = 0;
    while k < deltas.len()
        invariant
            0 <= k <= deltas@.len(),
            forall|j: int| 0 <= j < deltas@.len() ==> -2 <= #[trigger] deltas@[j] <= 2,
            ds == deltas@.map_values(|d: i8| d as int),
            out@ == near_files(views(dir.entries@), base as int, ds.take(k as int)),
        decreases deltas@.len() - k,
    {
        assert(ds.take(k + 1).drop_last() =~= ds.take(k as int));
        push_near(&mut out, dir, base, deltas[k]);
        k = k + 1;
    }
    assert(ds.take(deltas@.len() as int) =~= ds);
    out
}

/// See `prefetch_order`.
pub fn prefetch_candidates(state: &AppState, dir: &DirState) -> (r: Vec<usize>)
    ensures
        r@ == prefetch_order(state@, views(dir.entries@)),
{
    let idx = state.resolved_index();
    match state.view_mode {
        crate::state::ViewMode::Single => {
            let ds: [i8; 4] = [-1, 1, -2, 2];
            let r = near_files_exec(dir, idx, &ds);
            assert(ds@.map_values(|d: i8| d as int) =~= seq![-1int, 1, -2, 2]);
            r
        },
        crate::state::ViewMode::Compare => match &state.compare {
            Some(c) => {
                let ds: [i8; 3] = [0, -1, 1];
                assert(ds@.map_values(|d: i8| d as int) =~= seq![0int, -1, 1]);
                let mut a = near_files_exec(dir, c.left_index, &ds);
                let mut b = near_files_exec(dir, c.right_index, &ds);
                a.append(&mut b);
                a
            },
            None => Vec::new(),
        },
        _ => {
            let ds: [i8; 5] = [0, -1, 1, -2, 2];
            let r = near_files_exec(dir, idx, &ds);
            assert(ds@.map_values(|d: i8| d as int) =~= seq![0int, -1, 1, -2, 2]);
            r
        },
    }
}


// ---------------------------------------------------------------------------
// Files opened from outside, and the file dialogs
// ---------------------------------------------------------------------------

/// The first position of an entry whose path is `path`.
pub open spec fn position_with_path(es: Seq<EntryView>, path: Seq<char>) -> Option<int> {
    if exists|i: int| 0 <= i < es.len() && es[i].path == path {
        Some(choose|i: int| 0 <= i < es.len() && es[i].path == path && forall|j: int| 0 <= j < i ==> es[j].path != path)
    } else {
        None
    }
}

/// The first position of an entry whose path is `path`, if any.
pub fn find_path(dir: &DirState, path: &str) -> (r: Option<usize>)
    ensures
        r matches Some(i) ==> i < dir.entries@.len(),
        match r {
            Some(i) => position_with_path(views(dir.entries@), path@) == Some(i as int),
            None => position_with_path(views(dir.entries@), path@) is None,
        },
{
    let ghost es = views(dir.entries@);
    let mut i: usize = 0;
    while i < dir.entries.len()
        invariant
            0 <= i <= dir.entries@.len(),
            es == views(dir.entries@),
            forall|j: int| 0 <= j < i ==> es[j].path != path@,
        decreases dir.entries@.len() - i,
    {
        assert(es[i as int].path == dir.entries@[i as int].path@);
        if same_text(dir.entries[i].path.as_str(), path) {
            proof {
                let w = choose|k: int| 0 <= k < es.len() && es[k].path == path@ && forall|j: int|
                    0 <= j < k ==> es[j].path != path@;
                assert(0 <= i < es.len() && es[i as int].path == path@ && forall|j: int|
                    0 <= j < i ==> es[j].path != path@);
                if w < i {
                } else if w > i {
                    assert(es[i as int].path != path@);
                }
            }
            return Some(i);
        }
        i = i + 1;
    }
    None
}

/// The folder to list for a path given at start-up: a file's folder (the
/// path itself when it has none), or the path.
pub open spec fn start_folder(path: Seq<char>, is_file: bool) -> Seq<char> {
    if is_file {
        match path_parent(path) {
            Some(p) => p,
            None => path,
        }
    } else {
        path
    }
}

/// See `start_folder`; `is_file` tells whether the path is a file on disk.
pub fn start_folder_of(path: &str, is_file: bool) -> (r: String)
    ensures
        r@ == start_folder(path@, is_file),
{
    if is_file {
        match parent_of(path) {
            Some(p) => p,
            None => text_of(path),
        }
    } else {
        text_of(path)
    }
}

/// A file opened at start-up is selected and shown alone, when the listing
/// has it.
pub open spec fn file_opened(u: UiView, es: Seq<EntryView>, path: Seq<char>) -> UiView {
    match position_with_path(es, path) {
        Some(i) => UiView { selected_index: i as usize, view_mode: crate::state::ViewMode::Single, ..u },
        None => u,
    }
}

/// See `file_opened`.
pub fn open_file(state: &mut AppState, dir: &DirState, path: &str)
    ensures
        final(state)@ == file_opened(old(state)@, views(dir.entries@), path@),
{
    match find_path(dir, path) {
        Some(i) => {
            state.selected_index = i;
            state.view_mode = crate::state::ViewMode::Single;
        },
        None => {},
    }
}

/// What to do with a path dropped on the window or typed in the path bar.
#[derive(Debug)]
pub enum PathAction {
    /// List a folder on disk.
    OpenFolder(String),
    /// List a zip archive from its root.
    OpenArchive(String),
    /// List a file's folder and select the file.
    OpenFileIn { folder: String, file: String },
    /// Nothing to open.
    Nothing,
}

/// A path action as plain values.
pub enum PathActionView {
    OpenFolder(Seq<char>),
    OpenArchive(Seq<char>),
    OpenFileIn(Seq<char>, Seq<char>),
    Nothing,
}

impl View for PathAction {
    type V = PathActionView;

    open spec fn view(&self) -> PathActionView {
        match self {
            PathAction::OpenFolder(p) => PathActionView::OpenFolder(p@),
            PathAction::OpenArchive(p) => PathActionView::OpenArchive(p@),
            PathAction::OpenFileIn { folder, file } => PathActionView::OpenFileIn(folder@, file@),
            PathAction::Nothing => PathActionView::Nothing,
        }
    }
}

/// A dropped path (`is_dir`, `is_file`: what it is on disk): a folder is
/// listed, a zip file opened, another file shown in its folder (when the
/// path has a parent).
pub open spec fn dropped_action(path: Seq<char>, is_dir: bool, is_file: bool) -> PathActionView {
    if is_dir {
        PathActionView::OpenFolder(path)
    } else if spec_is_zip(path) && is_file {
        PathActionView::OpenArchive(path)
    } else if is_file {
        match path_parent(path) {
            Some(p) => PathActionView::OpenFileIn(p, path),
            None => PathActionView::Nothing,
        }
    } else {
        PathActionView::Nothing
    }
}

/// See `dropped_action`.
pub fn dropped_path_action(path: &str, is_dir: bool, is_file: bool) -> (r: PathAction)
    ensures
        r@ == dropped_action(path@, is_dir, is_file),
{
    if is_dir {
        PathAction::OpenFolder(text_of(path))
    } else if is_zip(path) && is_file {
        PathAction::OpenArchive(text_of(path))
    } else if is_file {
        match parent_of(path) {
            Some(p) => PathAction::OpenFileIn { folder: p, file: text_of(path) },
            None => PathAction::Nothing,
        }
    } else {
        PathAction::Nothing
    }
}

/// A path typed in the path bar: a folder is listed (by its canonical path,
/// which the caller resolves), a zip file opened; otherwise the path bar
/// shows the current folder again.
pub open spec fn typed_action(path: Seq<char>, is_dir: bool, is_file: bool) -> PathActionView {
    if is_dir {
        PathActionView::OpenFolder(path)
    } else if spec_is_zip(path) && is_file {
        PathActionView::OpenArchive(path)
    } else {
        PathActionView::Nothing
    }
}

/// See `typed_action`.
pub fn typed_path_action(path: &str, is_dir: bool, is_file: bool) -> (r: PathAction)
    ensures
        r@ == typed_action(path@, is_dir, is_file),
{
    if is_dir {
        PathAction::OpenFolder(text_of(path))
    } else if is_zip(path) && is_file {
        PathAction::OpenArchive(text_of(path))
    } else {
        PathAction::Nothing
    }
}

/// Where a renamed file goes: its folder ("." when its path has none)
/// joined with the new name.
pub open spec fn rename_target(original: Seq<char>, new_name: Seq<char>) -> Seq<char> {
    path_joined(
        match path_parent(original) {
            Some(p) => p,
            None => "."@,
        },
        new_name,
    )
}

/// See `rename_target`.
pub fn rename_target_path(original: &str, new_name: &str) -> (r: String)
    ensures
        r@ == rename_target(original@, new_name@),
{
    let folder = match parent_of(original) {
        Some(p) => p,
        None => text_of("."),
    };
    join_path(folder.as_str(), new_name)
}

/// Where a copied file's bytes come from.
#[derive(Debug)]
pub enum CopySource {
    /// A file on disk.
    File(String),
    /// A member of a zip archive.
    Member { archive: String, entry: String },
}

/// One file to copy: from where, to which path.
#[derive(Debug)]
pub struct CopyJob {
    pub source: CopySource,
    pub target: String,
}

/// A copy job as plain values: the source (an archive and member for a
/// file read from a zip archive) and the target.
pub struct CopyJobView {
    pub file: Seq<char>,
    pub member: Option<(Seq<char>, Seq<char>)>,
    pub target: Seq<char>,
}

/// The copy of `src` into the folder `dest`: the target is the folder
/// joined with the file's name ("" when it has none); a listed entry with
/// that path that was read from a zip archive is copied out of the archive.
pub open spec fn copy_job(es: Seq<EntryView>, src: Seq<char>, dest: Seq<char>) -> CopyJobView {
    let name = match path_file_name(src) {
        Some(n) => n,
        None => Seq::empty(),
    };
    CopyJobView {
        file: src,
        member: match position_with_path(es, src) {
            Some(i) => es[i].zip_source,
            None => None,
        },
        target: path_joined(dest, name),
    }
}

/// The copy of `src` into `dest` (see `copy_job`).
pub fn copy_job_for(dir: &DirState, src: &str, dest: &str) -> (r: CopyJob)
    ensures
        r.target@ == copy_job(views(dir.entries@), src@, dest@).target,
        match r.source {
            CopySource::File(f) => f@ == src@ && copy_job(views(dir.entries@), src@, dest@).member is None,
            CopySource::Member { archive, entry } => copy_job(views(dir.entries@), src@, dest@).member
                == Some((archive@, entry@)),
        },
{
    let name = match file_name_of(src) {
        Some(n) => n,
        None => String::new(),
    };
    let target = join_path(dest, name.as_str());
    let source = match find_path(dir, src) {
        Some(i) => {
            assert(views(dir.entries@)[i as int] == dir.entries@[i as int]@);
            match &dir.entries[i].zip_source {
                Some(z) => CopySource::Member { archive: z.archive_path.clone(), entry: z.entry_name.clone() },
                None => CopySource::File(text_of(src)),
            }
        },
        None => CopySource::File(text_of(src)),
    };
    CopyJob { source, target }
}

// ---------------------------------------------------------------------------
// Laws
// ---------------------------------------------------------------------------

/// Inside a zip archive, entering a sub-folder and then going up comes back
/// to the folder one started from (a folder prefix is empty or ends in "/";
/// a sub-folder's name is not empty and holds no "/").
pub proof fn law_up_undoes_enter_in_archive(a: Seq<char>, p: Seq<char>, name: Seq<char>, current: Seq<char>)
    requires
        p.len() == 0 || p.last() == '/',
        name.len() > 0,
        forall|k: int| 0 <= k < name.len() ==> name[k] != '/',
    ensures
        up_place(Some((a, p + name + "/"@)), current) == Some(Place::Archive(a, p)),
{
    let q = p + name + "/"@;
    let t = p + name;
    reveal_strlit("/");
    assert(q.len() > 0 && q.last() == '/');
    assert(q.drop_last() =~= t);
    assert(t.last() == name.last());
    assert(trim_end_char(t, '/') == t);
    assert(trim_end_char(q, '/') == t);
    if p.len() == 0 {
        assert forall|k: int| 0 <= k < t.len() implies t[k] != '/' by {
            assert(t[k] == name[k - p.len()]);
        }
        assert(last_index_of(t, '/') is None);
        assert(t.take(0) =~= Seq::<char>::empty());
        assert(p =~= Seq::<char>::empty());
    } else {
        let lp = p.len() - 1;
        assert(t[lp] == '/');
        assert forall|j: int| lp < j < t.len() implies t[j] != '/' by {
            assert(t[j] == name[j - p.len()]);
        }
        let w = choose|i: int| 0 <= i < t.len() && t[i] == '/' && forall|j: int| i < j < t.len() ==> t[j] != '/';
        assert(0 <= w < t.len() && t[w] == '/');
        if w < lp {
            assert(t[lp] != '/');
        } else if w > lp {
            assert(t[w] == name[w - p.len()]);
        }
        assert(last_index_of(t, '/') == Some(lp));
        assert(t.take(lp + 1) =~= p);
    }
}

/// The filter's matches are positions in the listing, in increasing order,
/// of entries whose names match; the selected row stays among them.
pub proof fn law_filter_matches_in_range(u: UiView, es: Seq<EntryView>)
    requires
        u.filter_active,
        es.len() <= usize::MAX,
    ensures
        ({
            let f = refiltered(u, es);
            &&& forall|k: int| 0 <= k < f.filtered_indices.len() ==> (#[trigger] f.filtered_indices[k]) < es.len()
                && name_matches(es[f.filtered_indices[k] as int].name, u.filter_text)
            &&& forall|k: int, m: int| 0 <= k < m < f.filtered_indices.len() ==> f.filtered_indices[k] < f.filtered_indices[m]
            &&& f.filtered_indices.len() > 0 ==> f.selected_index < f.filtered_indices.len()
            &&& f.filtered_indices.len() > 0 ==> f.resolved() < es.len()
        }),
{
    lemma_matches_upto(es, u.filter_text, es.len() as int);
}

proof fn lemma_matches_upto(es: Seq<EntryView>, q: Seq<char>, k: int)
    requires
        0 <= k <= es.len(),
        es.len() <= usize::MAX,
    ensures
        forall|j: int| 0 <= j < matches_upto(es, q, k).len() ==> (#[trigger] matches_upto(es, q, k)[j]) < k
            && name_matches(es[matches_upto(es, q, k)[j] as int].name, q),
        forall|j: int, m: int| 0 <= j < m < matches_upto(es, q, k).len() ==> matches_upto(es, q, k)[j]
            < matches_upto(es, q, k)[m],
    decreases k,
{
    if k > 0 {
        lemma_matches_upto(es, q, k - 1);
        let prev = matches_upto(es, q, k - 1);
        if name_matches(es[k - 1].name, q) {
            let cur = prev.push((k - 1) as usize);
            assert(cur == matches_upto(es, q, k));
            assert forall|j: int| 0 <= j < cur.len() implies (#[trigger] cur[j]) < k && name_matches(es[cur[j] as int].name, q) by {
                if j < prev.len() {
                    assert(cur[j] == prev[j]);
                }
            }
            assert forall|j: int, m: int| 0 <= j < m < cur.len() implies cur[j] < cur[m] by {
                assert(cur[j] == prev[j]);
                if m < prev.len() {
                    assert(cur[m] == prev[m]);
                }
            }
        }
    }
}

proof fn lemma_first_named(es: Seq<EntryView>, name: Seq<char>, i: int)
    requires
        0 <= i < es.len(),
        es[i].name == name,
    ensures
        exists|m: int| 0 <= m < es.len() && es[m].name == name && forall|j: int| 0 <= j < m ==> es[j].name != name,
    decreases i,
{
    if exists|j: int| 0 <= j < i && es[j].name == name {
        let j = choose|j: int| 0 <= j < i && es[j].name == name;
        lemma_first_named(es, name, j);
    } else {
        assert(0 <= i < es.len() && es[i].name == name && forall|j: int| 0 <= j < i ==> es[j].name != name);
    }
}

/// After a re-sort (with the filter off) the entry that was selected is
/// selected again, by its name, when the listing still has it.
pub proof fn law_reselect_keeps_name(u: UiView, es: Seq<EntryView>, name: Seq<char>)
    requires
        !u.filter_active,
        es.len() <= usize::MAX,
        position_named(es, name) is Some,
    ensures
        selected_name(reselected(u, es, Some(name)), es) == Some(name),
        selected_name(reselected_after_key(u, es, Some(name)), es) == Some(name),
{
    let i = choose|i: int| 0 <= i < es.len() && es[i].name == name;
    lemma_first_named(es, name, i);
    let pos = choose|i: int| 0 <= i < es.len() && es[i].name == name && forall|j: int| 0 <= j < i ==> es[j].name != name;
    assert(position_named(es, name) == Some(pos));
    assert(0 <= pos < es.len() && es[pos].name == name);
    assert(reselected(u, es, Some(name)).selected_index == pos as usize);
    assert(reselected(u, es, Some(name)).resolved() == pos as usize);
}

/// Prefetching only ever asks for files of the listing.
pub proof fn law_prefetch_files_only(u: UiView, es: Seq<EntryView>)
    requires
        es.len() <= usize::MAX,
    ensures
        forall|k: int| 0 <= k < prefetch_order(u, es).len() ==> (#[trigger] prefetch_order(u, es)[k]) < es.len()
            && !es[prefetch_order(u, es)[k] as int].is_dir,
{
    let idx = u.resolved() as int;
    lemma_near_files(es, idx, seq![-1int, 1, -2, 2]);
    lemma_near_files(es, idx, seq![0int, -1, 1, -2, 2]);
    if let Some(c) = u.compare {
        let a = near_files(es, c.left_index as int, seq![0int, -1, 1]);
        let b = near_files(es, c.right_index as int, seq![0int, -1, 1]);
        lemma_near_files(es, c.left_index as int, seq![0int, -1, 1]);
        lemma_near_files(es, c.right_index as int, seq![0int, -1, 1]);
        assert forall|k: int| 0 <= k < (a + b).len() implies #[trigger] (a + b)[k] < es.len()
            && !es[(a + b)[k] as int].is_dir by {
            if k < a.len() {
                assert((a + b)[k] == a[k]);
            } else {
                assert((a + b)[k] == b[k - a.len()]);
            }
        }
    }
}

proof fn lemma_near_files(es: Seq<EntryView>, base: int, deltas: Seq<int>)
    requires
        es.len() <= usize::MAX,
    ensures
        forall|k: int| 0 <= k < near_files(es, base, deltas).len() ==> (#[trigger] near_files(es, base, deltas)[k])
            < es.len() && !es[near_files(es, base, deltas)[k] as int].is_dir,
    decreases deltas.len(),
{
    if deltas.len() > 0 {
        lemma_near_files(es, base, deltas.drop_last());
    }
}

/// A listing opens on its first image, or on its first row when it has none.
pub proof fn law_open_on_first_image(es: Seq<EntryView>)
    ensures
        0 <= first_image_index(es),
        es.len() > 0 ==> first_image_index(es) < es.len(),
        (exists|i: int| 0 <= i < es.len() && !es[i].is_dir) ==> !es[first_image_index(es)].is_dir
            && forall|m: int| 0 <= m < first_image_index(es) ==> es[m].is_dir,
{
    crate::input::lemma_scan_fwd(es, 0);
}

proof fn lemma_matches_upto_ignores_case(es1: Seq<EntryView>, es2: Seq<EntryView>, q1: Seq<char>, q2: Seq<char>, k: int)
    requires
        0 <= k <= es1.len(),
        es1.len() == es2.len(),
        forall|j: int| 0 <= j < es1.len() ==> lowercase(#[trigger] es1[j].name) == lowercase(es2[j].name),
        lowercase(q1) == lowercase(q2),
    ensures
        matches_upto(es1, q1, k) == matches_upto(es2, q2, k),
    decreases k,
{
    if k > 0 {
        lemma_matches_upto_ignores_case(es1, es2, q1, q2, k - 1);
        assert(lowercase(es1[k - 1].name) == lowercase(es2[k - 1].name));
    }
}

proof fn lemma_matches_upto_members(es: Seq<EntryView>, q: Seq<char>, k: int)
    requires
        0 <= k <= es.len(),
        es.len() <= usize::MAX,
    ensures
        forall|j: int| 0 <= j < k ==> (matches_upto(es, q, k).contains(j as usize)
            <==> seq_contains(lowercase(#[trigger] es[j].name), lowercase(q))),
    decreases k,
{
    if k > 0 {
        lemma_matches_upto_members(es, q, k - 1);
        lemma_matches_upto(es, q, k - 1);
        let prev = matches_upto(es, q, k - 1);
        assert forall|j: int| 0 <= j < k implies (matches_upto(es, q, k).contains(j as usize)
            <==> seq_contains(lowercase(#[trigger] es[j].name), lowercase(q))) by {
            if matches_upto(es, q, k).contains(j as usize) && j < k - 1 {
                let t = choose|t: int| 0 <= t < matches_upto(es, q, k).len() && matches_upto(es, q, k)[t] == j as usize;
                if t < prev.len() {
                    assert(prev[t] == j as usize);
                }
            }
            if j < k - 1 && prev.contains(j as usize) {
                let t = choose|t: int| 0 <= t < prev.len() && prev[t] == j as usize;
                assert(matches_upto(es, q, k)[t] == j as usize);
            }
            if j == k - 1 {
                if seq_contains(lowercase(es[j].name), lowercase(q)) {
                    assert(matches_upto(es, q, k)[prev.len() as int] == j as usize);
                } else if prev.contains(j as usize) {
                    let t = choose|t: int| 0 <= t < prev.len() && prev[t] == j as usize;
                    assert(prev[t] < k - 1);
                }
            }
        }
    }
}

/// The name filter ignores case on both sides: an entry is kept exactly when
/// its lower-cased name contains the lower-cased query; so listings whose
/// names agree once lower-cased, filtered by queries that agree once
/// lower-cased, keep the same positions.
pub proof fn law_filter_ignores_case(es1: Seq<EntryView>, es2: Seq<EntryView>, q1: Seq<char>, q2: Seq<char>)
    requires
        es1.len() == es2.len(),
        es1.len() <= usize::MAX,
    ensures
        forall|j: int| 0 <= j < es1.len() ==> (matching(es1, q1).contains(j as usize)
            <==> seq_contains(lowercase(#[trigger] es1[j].name), lowercase(q1))),
        (forall|j: int| 0 <= j < es1.len() ==> lowercase(#[trigger] es1[j].name) == lowercase(es2[j].name))
            && lowercase(q1) == lowercase(q2) ==> matching(es1, q1) == matching(es2, q2),
{
    lemma_matches_upto_members(es1, q1, es1.len() as int);
    if (forall|j: int| 0 <= j < es1.len() ==> lowercase(#[trigger] es1[j].name) == lowercase(es2[j].name))
        && lowercase(q1) == lowercase(q2) {
        lemma_matches_upto_ignores_case(es1, es2, q1, q2, es1.len() as int);
    }
}

/// Rotating a file on disk: Rotate Left asks for a quarter turn
/// counter-clockwise and Rotate Right for one clockwise, both on the selected
/// file's path, leaving the browser as it was; on an entry read from a zip
/// archive, or with nothing selected, neither does anything.
pub proof fn law_rotate_directions(u: UiView, es: Seq<EntryView>)
    ensures
        ({
            let abs = u.resolved();
            let (ul, cl) = edit_outcome(u, es, EditAction::RotateLeft);
            let (ur, cr) = edit_outcome(u, es, EditAction::RotateRight);
            &&& ul == u && ur == u
            &&& if abs < es.len() && es[abs as int].zip_source is None {
                &&& cl == CommandView::Rotate(es[abs as int].path, false)
                &&& cr == CommandView::Rotate(es[abs as int].path, true)
            } else {
                cl == CommandView::Done && cr == CommandView::Done
            }
        }),
{
}

/// Opening in an image editor names the editor and the selected file's path
/// (GIMP as "gimp", Krita as "krita"), refused on an entry read from a zip
/// archive; copying the path gives the selected entry's path in every case.
/// None of them changes the browser.
pub proof fn law_open_and_copy_commands(u: UiView, es: Seq<EntryView>)
    ensures
        ({
            let abs = u.resolved();
            let (ug, cg) = edit_outcome(u, es, EditAction::OpenInGimp);
            let (uk, ck) = edit_outcome(u, es, EditAction::OpenInKrita);
            let (uc, cc) = edit_outcome(u, es, EditAction::CopyPath);
            &&& ug == u && uk == u && uc == u
            &&& if abs < es.len() {
                &&& cc == CommandView::CopyPath(es[abs as int].path)
                &&& if es[abs as int].zip_source is None {
                    &&& cg == CommandView::OpenWith("gimp"@, es[abs as int].path)
                    &&& ck == CommandView::OpenWith("krita"@, es[abs as int].path)
                } else {
                    cg == CommandView::Done && ck == CommandView::Done
                }
            } else {
                cg == CommandView::Done && ck == CommandView::Done && cc == CommandView::Done
            }
        }),
{
}

} // verus!
