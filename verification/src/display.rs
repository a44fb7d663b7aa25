//! The texts the viewer shows: the status bar, the image information panel,
//! the window title, the delete prompt and the results of file operations.
use vstd::prelude::*;

use crate::dir::{size_text, views, DirState, EntryView};
use crate::state::{AppState, CompareSide, UiView, ViewMode, ZoomMode};
use crate::text::{
    chars_equal, chars_of, decimal, decimal_string, file_name_of, joined, join_strings, path_extension,
    path_file_name, push_str, uppercase, utf8_len, char_boundary, byte_prefix, utf8_len_capped,
    take_bytes, string_of,
};

verus! {

fn push_decimal(out: &mut String, n: u64)
    ensures
        final(out)@ == old(out)@ + decimal(n as nat),
{
    let d = decimal_string(n);
    push_str(out, d.as_str());
}

fn push_count(out: &mut String, n: usize)
    ensures
        final(out)@ == old(out)@ + decimal(n as nat),
{
    push_decimal(out, n as u64);
}

// ---------------------------------------------------------------------------
// Status bar
// ---------------------------------------------------------------------------

/// "N selected | " while entries are multi-selected.
pub open spec fn multi_prefix(u: UiView) -> Seq<char> {
    if u.multi_selected.len() > 0 {
        decimal(u.multi_selected.len()) + " selected | "@
    } else {
        Seq::empty()
    }
}

/// The name of entry `i`, or "?" when there is none.
pub open spec fn name_or_unknown(es: Seq<EntryView>, i: usize) -> Seq<char> {
    if i < es.len() {
        es[i as int].name
    } else {
        "?"@
    }
}

/// The left part of the status bar: a recent message when there is one, else
/// the selected entry (and the zoom mode in the single view, the two images
/// in the compare view).
pub open spec fn status_left(u: UiView, es: Seq<EntryView>, message: Option<Seq<char>>) -> Seq<char> {
    let abs = u.resolved();
    match message {
        Some(m) => " "@ + m,
        None => match u.view_mode {
            ViewMode::List => if abs < es.len() {
                if es[abs as int].is_dir {
                    " "@ + multi_prefix(u) + es[abs as int].name + "/"@
                } else {
                    " "@ + multi_prefix(u) + es[abs as int].name
                }
            } else {
                " (empty)"@
            },
            ViewMode::Grid => if abs < es.len() {
                " "@ + multi_prefix(u) + es[abs as int].name
            } else {
                " (empty)"@
            },
            ViewMode::Single => if abs < es.len() {
                " "@ + es[abs as int].name + " | "@ + u.zoom_mode.spec_label()
            } else {
                Seq::empty()
            },
            ViewMode::Compare => match u.compare {
                Some(c) => " Compare: "@ + name_or_unknown(es, c.left_index) + " | "@ + name_or_unknown(
                    es,
                    c.right_index,
                ) + " (active: "@ + (match c.active_side {
                    CompareSide::Left => "L"@,
                    CompareSide::Right => "R"@,
                }) + ")"@ + (if c.locked {
                    " [LOCKED]"@
                } else {
                    Seq::empty()
                }),
                None => Seq::empty(),
            },
        },
    }
}

fn push_name_or_unknown(out: &mut String, dir: &DirState, i: usize)
    ensures
        final(out)@ == old(out)@ + name_or_unknown(views(dir.entries@), i),
{
    if i < dir.entries.len() {
        assert(views(dir.entries@)[i as int].name == dir.entries@[i as int].name@);
        push_str(out, dir.entries[i].name.as_str());
    } else {
        push_str(out, "?");
    }
}

fn push_multi_prefix(out: &mut String, state: &AppState)
    ensures
        final(out)@ == old(out)@ + multi_prefix(state@),
{
    let n = state.multi_select_count();
    if n > 0 {
        push_count(out, n);
        push_str(out, " selected | ");
    }
}

/// See `status_left`; `message` is the status message while it is recent.
pub fn status_left_text(state: &AppState, dir: &DirState, message: Option<&str>) -> (r: String)
    ensures
        r@ == status_left(
            state@,
            views(dir.entries@),
            match message {
                Some(m) => Some(m@),
                None => None,
            },
        ),
{
    let ghost es = views(dir.entries@);
    let mut out = String::new();
    if let Some(m) = message {
        push_str(&mut out, " ");
        push_str(&mut out, m);
        return out;
    }
    let abs = state.resolved_index();
    match state.view_mode {
        ViewMode::List => {
            if abs < dir.entries.len() {
                assert(es[abs as int] == dir.entries@[abs as int]@);
                push_str(&mut out, " ");
                push_multi_prefix(&mut out, state);
                push_str(&mut out, dir.entries[abs].name.as_str());
                if dir.entries[abs].is_dir {
                    push_str(&mut out, "/");
                }
            } else {
                push_str(&mut out, " (empty)");
            }
        },
        ViewMode::Grid => {
            if abs < dir.entries.len() {
                assert(es[abs as int] == dir.entries@[abs as int]@);
                push_str(&mut out, " ");
                push_multi_prefix(&mut out, state);
                push_str(&mut out, dir.entries[abs].name.as_str());
            } else {
                push_str(&mut out, " (empty)");
            }
        },
        ViewMode::Single => {
            if abs < dir.entries.len() {
                assert(es[abs as int] == dir.entries@[abs as int]@);
                push_str(&mut out, " ");
                push_str(&mut out, dir.entries[abs].name.as_str());
                push_str(&mut out, " | ");
                push_str(&mut out, state.zoom_mode.label());
            }
        },
        ViewMode::Compare => {
            match &state.compare {
                Some(c) => {
                    push_str(&mut out, " Compare: ");
                    push_name_or_unknown(&mut out, dir, c.left_index);
                    push_str(&mut out, " | ");
                    push_name_or_unknown(&mut out, dir, c.right_index);
                    push_str(&mut out, " (active: ");
                    match c.active_side {
                        CompareSide::Left => push_str(&mut out, "L"),
                        CompareSide::Right => push_str(&mut out, "R"),
                    }
                    push_str(&mut out, ")");
                    if c.locked {
                        push_str(&mut out, " [LOCKED]");
                    }
                },
                None => {},
            }
        },
    }
    out
}

/// The entry whose image size the status bar shows: the active side's image
/// in the compare view, else the selected entry.
pub open spec fn status_entry(u: UiView) -> usize {
    if u.view_mode == ViewMode::Compare {
        match u.compare {
            Some(c) => match c.active_side {
                CompareSide::Left => c.left_index,
                CompareSide::Right => c.right_index,
            },
            None => u.resolved(),
        }
    } else {
        u.resolved()
    }
}

/// See `status_entry`.
pub fn status_entry_index(state: &AppState) -> (r: usize)
    ensures
        r == status_entry(state@),
{
    if state.view_mode == ViewMode::Compare {
        match &state.compare {
            Some(c) => match c.active_side {
                CompareSide::Left => c.left_index,
                CompareSide::Right => c.right_index,
            },
            None => state.resolved_index(),
        }
    } else {
        state.resolved_index()
    }
}

/// "(loading N...) " while decodes are in flight.
pub open spec fn loading_part(pending: usize) -> Seq<char> {
    if pending > 0 { "(loading "@ + decimal(pending as nat) + "...) "@ } else { Seq::empty() }
}

/// "WxH | " when the image size is known.
pub open spec fn size_part(dims: Option<(u32, u32)>) -> Seq<char> {
    match dims {
        Some((w, h)) => decimal(w as nat) + "x"@ + decimal(h as nat) + " | "@,
        None => Seq::empty(),
    }
}

/// "Name ▲ | " (or ▼ for descending) in the browse views.
pub open spec fn sort_part(u: UiView) -> Seq<char> {
    if u.view_mode == ViewMode::List || u.view_mode == ViewMode::Grid {
        u.sort_field.spec_label() + " "@ + (if u.sort_ascending { "\u{25b2}"@ } else { "\u{25bc}"@ }) + " | "@
    } else {
        Seq::empty()
    }
}

/// "N matches" under the filter, else "N images, M dirs".
pub open spec fn counts_part(u: UiView, es: Seq<EntryView>, image_count: usize, dir_count: usize) -> Seq<char> {
    if u.filter_active {
        decimal(u.visible(es.len())) + " matches"@
    } else {
        decimal(image_count as nat) + " images, "@ + decimal(dir_count as nat) + " dirs"@
    }
}

/// "row/rows", counting from 1; "0/0" when nothing is shown.
pub open spec fn pos_part(u: UiView, es: Seq<EntryView>) -> Seq<char> {
    let visible = u.visible(es.len());
    if visible == 0 { "0/0"@ } else { decimal((u.selected_index + 1) as nat) + "/"@ + decimal(visible) }
}

/// The view's name.
pub open spec fn mode_part(u: UiView) -> Seq<char> {
    match u.view_mode {
        ViewMode::List => "LIST"@,
        ViewMode::Grid => "GRID"@,
        ViewMode::Single => "VIEW"@,
        ViewMode::Compare => "COMPARE"@,
    }
}

/// The right part of the status bar: decodes in flight, the image size,
/// the sort order (in the browse views), the counts, the position and the
/// view. `pending` counts the decodes in flight; `dims` is the size of
/// the image of `status_entry`, when known.
pub open spec fn status_right(
    u: UiView,
    es: Seq<EntryView>,
    image_count: usize,
    dir_count: usize,
    pending: usize,
    dims: Option<(u32, u32)>,
) -> Seq<char> {
    loading_part(pending) + size_part(dims) + sort_part(u) + counts_part(u, es, image_count, dir_count)
        + " | "@ + pos_part(u, es) + " | "@ + mode_part(u) + " "@
}

fn push_loading(out: &mut String, pending: usize)
    ensures
        final(out)@ == old(out)@ + loading_part(pending),
{
    if pending > 0 {
        push_str(out, "(loading ");
        push_count(out, pending);
        push_str(out, "...) ");
    } else {
        assert(old(out)@ + loading_part(pending) =~= old(out)@);
    }
}

fn push_size(out: &mut String, dims: Option<(u32, u32)>)
    ensures
        final(out)@ == old(out)@ + size_part(dims),
{
    match dims {
        Some((w, h)) => {
            push_decimal(out, w as u64);
            push_str(out, "x");
            push_decimal(out, h as u64);
            push_str(out, " | ");
        },
        None => {
            assert(old(out)@ + size_part(dims) =~= old(out)@);
        },
    }
}

fn push_sort(out: &mut String, state: &AppState)
    ensures
        final(out)@ == old(out)@ + sort_part(state@),
{
    if state.view_mode == ViewMode::List || state.view_mode == ViewMode::Grid {
        push_str(out, state.sort_field.label());
        push_str(out, " ");
        if state.sort_ascending {
            push_str(out, "\u{25b2}");
        } else {
            push_str(out, "\u{25bc}");
        }
        push_str(out, " | ");
    } else {
        assert(old(out)@ + sort_part(state@) =~= old(out)@);
    }
}

fn push_counts(out: &mut String, state: &AppState, dir: &DirState)
    ensures
        final(out)@ == old(out)@ + counts_part(state@, views(dir.entries@), dir.image_count, dir.dir_count),
{
    if state.filter_active {
        let visible = state.visible_count(dir);
        push_count(out, visible);
        push_str(out, " matches");
    } else {
        push_count(out, dir.image_count);
        push_str(out, " images, ");
        push_count(out, dir.dir_count);
        push_str(out, " dirs");
    }
}

fn push_pos(out: &mut String, state: &AppState, dir: &DirState)
    requires
        state@.visible(dir.entries@.len()) > 0 ==> state.selected_index < u64::MAX,
    ensures
        final(out)@ == old(out)@ + pos_part(state@, views(dir.entries@)),
{
    let visible = state.visible_count(dir);
    if visible == 0 {
        push_str(out, "0/0");
    } else {
        push_decimal(out, state.selected_index as u64 + 1);
        push_str(out, "/");
        push_count(out, visible);
    }
}

fn push_mode(out: &mut String, state: &AppState)
    ensures
        final(out)@ == old(out)@ + mode_part(state@),
{
    match state.view_mode {
        ViewMode::List => push_str(out, "LIST"),
        ViewMode::Grid => push_str(out, "GRID"),
        ViewMode::Single => push_str(out, "VIEW"),
        ViewMode::Compare => push_str(out, "COMPARE"),
    }
}

/// How long a status message stays shown, in milliseconds.
pub const STATUS_SHOWN_MS: u128 = 3000;

/// Whether a status message set `elapsed_ms` milliseconds ago is still shown
/// (and kept): for the first three seconds.
pub fn message_is_recent(elapsed_ms: u128) -> (r: bool)
    ensures
        r == (elapsed_ms < STATUS_SHOWN_MS),
{
    elapsed_ms < STATUS_SHOWN_MS
}

/// See `status_right`. The position counts rows from 1, so the selected row
/// must be below the largest 64-bit number when rows are shown.
pub fn status_right_text(state: &AppState, dir: &DirState, pending: usize, dims: Option<(u32, u32)>) -> (r: String)
    requires
        state@.visible(dir.entries@.len()) > 0 ==> state.selected_index < u64::MAX,
    ensures
        r@ == status_right(state@, views(dir.entries@), dir.image_count, dir.dir_count, pending, dims),
{
    let mut out = String::new();
    push_loading(&mut out, pending);
    push_size(&mut out, dims);
    push_sort(&mut out, state);
    push_counts(&mut out, state, dir);
    push_str(&mut out, " | ");
    push_pos(&mut out, state, dir);
    push_str(&mut out, " | ");
    push_mode(&mut out, state);
    push_str(&mut out, " ");
    assert(out@ =~= status_right(state@, views(dir.entries@), dir.image_count, dir.dir_count, pending, dims));
    out
}


// ---------------------------------------------------------------------------
// Other texts
// ---------------------------------------------------------------------------

/// The window title: "riv - " and the current folder's name.
pub open spec fn title_text(current: Seq<char>) -> Seq<char> {
    "riv - "@ + match path_file_name(current) {
        Some(n) => n,
        None => Seq::empty(),
    }
}

/// See `title_text`.
pub fn window_title(current: &str) -> (r: String)
    ensures
        r@ == title_text(current@),
{
    let mut out = String::new();
    push_str(&mut out, "riv - ");
    match file_name_of(current) {
        Some(n) => push_str(&mut out, n.as_str()),
        None => {
            assert(out@ =~= title_text(current@));
        },
    }
    out
}

/// The files listed in the delete prompt: all names, comma-separated, when
/// there are at most five; else the first three and the count.
pub open spec fn delete_list(names: Seq<Seq<char>>) -> Seq<char> {
    if names.len() <= 5 {
        joined(names, ", "@)
    } else {
        joined(names.take(3), ", "@) + ", ... ("@ + decimal(names.len()) + " files)"@
    }
}

pub open spec fn texts(v: Seq<String>) -> Seq<Seq<char>> {
    v.map_values(|s: String| s@)
}

/// See `delete_list`.
pub fn delete_list_text(names: &Vec<String>) -> (r: String)
    ensures
        r@ == delete_list(texts(names@)),
{
    if names.len() <= 5 {
        join_strings(names.as_slice(), ", ")
    } else {
        let head = slice_strings(names, 3);
        let mut out = join_strings(head.as_slice(), ", ");
        push_str(&mut out, ", ... (");
        push_count(&mut out, names.len());
        push_str(&mut out, " files)");
        assert(texts(head@) =~= texts(names@).take(3));
        out
    }
}

fn slice_strings(v: &Vec<String>, n: usize) -> (r: Vec<String>)
    requires
        n <= v@.len(),
    ensures
        texts(r@) == texts(v@).take(n as int),
{
    let mut out: Vec<String> = Vec::new();
    let mut i: usize = 0;
    while i < n
        invariant
            0 <= i <= n,
            n <= v@.len(),
            texts(out@) == texts(v@).take(i as int),
            out@.len() == i,
        decreases n - i,
    {
        let s = v[i].clone();
        assert(s@ == v@[i as int]@);
        let ghost before = out@;
        out.push(s);
        assert(out@ == before.push(s));
        assert forall|j: int| 0 <= j < i + 1 implies #[trigger] texts(out@)[j] == texts(v@).take(i + 1)[j] by {
            if j < i {
                assert(texts(before)[j] == texts(v@).take(i as int)[j]);
            }
        }
        assert(texts(out@) =~= texts(v@).take(i + 1));
        i = i + 1;
    }
    out
}

/// The result of copying or deleting files: "<verb> N file(s)" when all
/// went well, else "<verb> N, M failed".
pub open spec fn summary(verb: Seq<char>, ok: nat, failed: nat) -> Seq<char> {
    if failed == 0 {
        verb + " "@ + decimal(ok) + " file(s)"@
    } else {
        verb + " "@ + decimal(ok) + ", "@ + decimal(failed) + " failed"@
    }
}

/// See `summary`; `verb` is "Copied" or "Deleted".
pub fn summary_text(verb: &str, ok: usize, failed: usize) -> (r: String)
    ensures
        r@ == summary(verb@, ok as nat, failed as nat),
{
    let mut out = String::new();
    push_str(&mut out, verb);
    push_str(&mut out, " ");
    push_count(&mut out, ok);
    if failed == 0 {
        push_str(&mut out, " file(s)");
    } else {
        push_str(&mut out, ", ");
        push_count(&mut out, failed);
        push_str(&mut out, " failed");
    }
    out
}

/// The hint shown when an image could not be decoded because the program
/// that decodes its kind is missing: PDF files need `mutool`, camera RAW
/// files `dcraw`.
pub open spec fn failure_hint(path: Seq<char>, has_mutool: bool, has_dcraw: bool) -> Option<Seq<char>> {
    let ext = crate::decode::lowered_ext(path);
    if ext == "pdf"@ && !has_mutool {
        Some("Install mupdf-tools for PDF support"@)
    } else if crate::decode::is_raw_ext(ext) && !has_dcraw {
        Some("Install libraw-bin for RAW photo support"@)
    } else {
        None
    }
}

/// See `failure_hint`.
pub fn decode_failure_hint(path: &str, has_mutool: bool, has_dcraw: bool) -> (r: Option<&'static str>)
    ensures
        match r {
            Some(h) => failure_hint(path@, has_mutool, has_dcraw) == Some(h@),
            None => failure_hint(path@, has_mutool, has_dcraw) is None,
        },
{
    let e = crate::decode::lowered_extension(path);
    if chars_equal(&e, "pdf") && !has_mutool {
        Some("Install mupdf-tools for PDF support")
    } else if (chars_equal(&e, "cr2") || chars_equal(&e, "cr3") || chars_equal(&e, "nef")
        || chars_equal(&e, "arw") || chars_equal(&e, "orf") || chars_equal(&e, "rw2")
        || chars_equal(&e, "dng") || chars_equal(&e, "raf") || chars_equal(&e, "pef")
        || chars_equal(&e, "srw")) && !has_dcraw {
        Some("Install libraw-bin for RAW photo support")
    } else {
        None
    }
}


// ---------------------------------------------------------------------------
// Labels and the image information panel
// ---------------------------------------------------------------------------

/// A grid cell's label: names longer than 18 bytes are cut to their first
/// 15 bytes and "...".
pub open spec fn grid_label(name: Seq<char>) -> Seq<char> {
    if utf8_len(name) > 18 {
        byte_prefix(name, 15) + "..."@
    } else {
        name
    }
}

/// See `grid_label`; a name cut there must have a character start at byte 15.
pub fn grid_label_text(name: &str) -> (r: String)
    requires
        utf8_len(name@) > 18 ==> char_boundary(name@, 15),
    ensures
        r@ == grid_label(name@),
{
    let cs = chars_of(name);
    if utf8_len_capped(&cs, 18) > 18 {
        let head = take_bytes(&cs, 15);
        let mut out = string_of(&head);
        push_str(&mut out, "...");
        out
    } else {
        string_of(&cs)
    }
}

/// A listing row's label: folders end in "/".
pub open spec fn row_label(e: EntryView) -> Seq<char> {
    if e.is_dir {
        e.name + "/"@
    } else {
        e.name
    }
}

/// See `row_label`.
pub fn row_label_text(e: &crate::dir::DirEntry) -> (r: String)
    ensures
        r@ == row_label(e@),
{
    let mut out = String::new();
    push_str(&mut out, e.name.as_str());
    if e.is_dir {
        push_str(&mut out, "/");
    }
    out
}

/// The lines of the image information panel: the name, the size in pixels
/// (when known), the file size, the extension in upper case (when there is
/// one), the zoom mode, and for an animation the frame shown and whether it
/// plays.
pub open spec fn info_lines(
    e: EntryView,
    dims: Option<(u32, u32)>,
    zoom: ZoomMode,
    anim: Option<(usize, usize)>,
    playing: bool,
) -> Seq<Seq<char>> {
    let l1 = seq![e.name];
    let l2 = match dims {
        Some((w, h)) => l1.push(decimal(w as nat) + "x"@ + decimal(h as nat)),
        None => l1,
    };
    let l3 = l2.push(size_text(e.size as nat));
    let l4 = match path_extension(e.path) {
        Some(x) => l3.push(uppercase(x)),
        None => l3,
    };
    let l5 = l4.push("Zoom: "@ + zoom.spec_label());
    match anim {
        Some((f, t)) => l5.push(
            "Frame "@ + decimal((f + 1) as nat) + "/"@ + decimal(t as nat) + " ("@ + (if playing {
                "Playing"@
            } else {
                "Paused"@
            }) + ")"@,
        ),
        None => l5,
    }
}

/// See `info_lines`; the frame shown comes before the frame count.
pub fn info_lines_text(
    e: &crate::dir::DirEntry,
    dims: Option<(u32, u32)>,
    zoom: ZoomMode,
    anim: Option<(usize, usize)>,
    playing: bool,
) -> (r: Vec<String>)
    requires
        anim matches Some((f, t)) ==> f < t,
    ensures
        texts(r@) == info_lines(e@, dims, zoom, anim, playing),
{
    let mut lines: Vec<String> = Vec::new();
    lines.push(e.name.clone());
    match dims {
        Some((w, h)) => {
            let mut l = String::new();
            push_decimal(&mut l, w as u64);
            push_str(&mut l, "x");
            push_decimal(&mut l, h as u64);
            lines.push(l);
        },
        None => {},
    }
    lines.push(crate::dir::format_size(e.size));
    match crate::text::extension_of(e.path.as_str()) {
        Some(x) => lines.push(crate::text::to_uppercase(x.as_str())),
        None => {},
    }
    let mut z = String::new();
    push_str(&mut z, "Zoom: ");
    push_str(&mut z, zoom.label());
    lines.push(z);
    match anim {
        Some((f, t)) => {
            let mut l = String::new();
            push_str(&mut l, "Frame ");
            push_count(&mut l, f + 1);
            push_str(&mut l, "/");
            push_count(&mut l, t);
            push_str(&mut l, " (");
            if playing {
                push_str(&mut l, "Playing");
            } else {
                push_str(&mut l, "Paused");
            }
            push_str(&mut l, ")");
            lines.push(l);
        },
        None => {},
    }
    assert(texts(lines@) =~= info_lines(e@, dims, zoom, anim, playing));
    lines
}

/// The animation frame shown: the current one, or the last when the
/// current one is past it.
pub fn shown_frame(frame: usize, count: usize) -> (r: usize)
    requires
        count > 0,
    ensures
        r == if frame < count { frame } else { (count - 1) as usize },
{
    if frame < count {
        frame
    } else {
        count - 1
    }
}

/// The frame after `idx`, wrapping around to the first.
pub fn next_frame(idx: usize, count: usize) -> (r: usize)
    requires
        idx < count,
    ensures
        r == (idx + 1) % (count as int),
{
    if idx + 1 == count {
        assert((idx + 1) % (count as int) == 0) by (nonlinear_arith)
            requires
                idx + 1 == count,
                count > 0,
        ;
        0
    } else {
        assert((idx + 1) % (count as int) == idx + 1) by (nonlinear_arith)
            requires
                idx + 1 < count,
        ;
        idx + 1
    }
}

} // verus!
