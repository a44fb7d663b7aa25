use vstd::prelude::*;

use crate::calendar::{civil_date, civil_from_days, lemma_civil_bounds, lemma_date_key_monotone, lemma_date_order};
use crate::sorting::{
    in_order, int_order, lemma_digits_order, lemma_in_order_subrange, lemma_resort_in_order,
    lemma_seq_order_concat, lemma_seq_order_same, lemma_sorted_in_order, lowered_names, seq_order,
    sorted_segment, stable_sorted, stable_sorted_with,
};
use crate::state::SortField;
use crate::text::{
    chars_equal, chars_of, decimal, extension_of, find_char, first_index_of, lowercase, parent_of,
    path_extension, path_parent, push_padded, push_str, slice_chars, starts_with, starts_with_chars,
    string_of, to_lowercase, trim_end_char, trim_end_chars, zero_padded,
};

verus! {

/// The zip archive a listing comes from, and the folder inside it.
#[derive(Debug)]
pub struct ZipContext {
    pub archive_path: String,
    /// "" for the archive's root, "subdir/" for a folder in it.
    pub inner_prefix: String,
}

impl Clone for ZipContext {
    fn clone(&self) -> (r: Self)
        ensures
            r == *self,
    {
        ZipContext { archive_path: self.archive_path.clone(), inner_prefix: self.inner_prefix.clone() }
    }
}

/// Where an entry's bytes are inside a zip archive.
#[derive(Debug)]
pub struct ZipSource {
    pub archive_path: String,
    pub entry_name: String,
}

impl Clone for ZipSource {
    fn clone(&self) -> (r: Self)
        ensures
            r == *self,
    {
        ZipSource { archive_path: self.archive_path.clone(), entry_name: self.entry_name.clone() }
    }
}

/// A listing row as plain values.
pub struct EntryView {
    pub path: Seq<char>,
    pub name: Seq<char>,
    pub is_dir: bool,
    pub size: u64,
    pub modified: Option<i128>,
    /// Archive path and member name.
    pub zip_source: Option<(Seq<char>, Seq<char>)>,
}

impl View for DirEntry {
    type V = EntryView;

    open spec fn view(&self) -> EntryView {
        EntryView {
            path: self.path@,
            name: self.name@,
            is_dir: self.is_dir,
            size: self.size,
            modified: self.modified,
            zip_source: match self.zip_source {
                Some(z) => Some((z.archive_path@, z.entry_name@)),
                None => None,
            },
        }
    }
}

pub open spec fn views(s: Seq<DirEntry>) -> Seq<EntryView> {
    s.map_values(|e: DirEntry| e@)
}

/// One row of a listing.
#[derive(Debug)]
pub struct DirEntry {
    pub path: String,
    pub name: String,
    pub is_dir: bool,
    pub size: u64,
    /// Modification time in nanoseconds since the Unix epoch.
    pub modified: Option<i128>,
    pub zip_source: Option<ZipSource>,
}

impl Clone for DirEntry {
    fn clone(&self) -> (r: Self)
        ensures
            r == *self,
    {
        let zip_source = match &self.zip_source {
            Some(z) => Some(z.clone()),
            None => None,
        };
        DirEntry {
            path: self.path.clone(),
            name: self.name.clone(),
            is_dir: self.is_dir,
            size: self.size,
            modified: self.modified,
            zip_source,
        }
    }
}

/// A listing: an optional ".." entry, then folders, then images.
pub struct DirState {
    pub entries: Vec<DirEntry>,
    pub image_count: usize,
    pub dir_count: usize,
    pub zip_ctx: Option<ZipContext>,
}


/// Extensions, in lower case, of the files the viewer lists as images:
/// raster formats, SVG, PDF and camera RAW files.
pub open spec fn is_image_ext(e: Seq<char>) -> bool {
    ||| e == "png"@ || e == "jpg"@ || e == "jpeg"@ || e == "webp"@ || e == "bmp"@
    ||| e == "gif"@ || e == "tiff"@ || e == "tif"@ || e == "avif"@ || e == "svg"@
    ||| e == "svgz"@ || e == "pdf"@
    ||| e == "cr2"@ || e == "cr3"@ || e == "nef"@ || e == "arw"@ || e == "orf"@
    ||| e == "rw2"@ || e == "dng"@ || e == "raf"@ || e == "pef"@ || e == "srw"@
}

pub open spec fn spec_is_image(path: Seq<char>) -> bool {
    match path_extension(path) {
        Some(e) => is_image_ext(lowercase(e)),
        None => false,
    }
}

pub open spec fn spec_is_zip(path: Seq<char>) -> bool {
    match path_extension(path) {
        Some(e) => lowercase(e) == "zip"@,
        None => false,
    }
}

fn is_image_ext_chars(e: &Vec<char>) -> (r: bool)
    ensures
        r == is_image_ext(e@),
{
    chars_equal(e, "png") || chars_equal(e, "jpg") || chars_equal(e, "jpeg") || chars_equal(
        e,
        "webp",
    ) || chars_equal(e, "bmp") || chars_equal(e, "gif") || chars_equal(e, "tiff") || chars_equal(
        e,
        "tif",
    ) || chars_equal(e, "avif") || chars_equal(e, "svg") || chars_equal(e, "svgz") || chars_equal(
        e,
        "pdf",
    ) || chars_equal(e, "cr2") || chars_equal(e, "cr3") || chars_equal(e, "nef") || chars_equal(
        e,
        "arw",
    ) || chars_equal(e, "orf") || chars_equal(e, "rw2") || chars_equal(e, "dng") || chars_equal(
        e,
        "raf",
    ) || chars_equal(e, "pef") || chars_equal(e, "srw")
}

/// Does the path name a file the viewer shows as an image, judged by its
/// extension, ignoring case?
pub fn is_image(path: &str) -> (r: bool)
    ensures
        r == spec_is_image(path@),
{
    match extension_of(path) {
        Some(e) => {
            let lower = to_lowercase(e.as_str());
            is_image_ext_chars(&chars_of(lower.as_str()))
        },
        None => false,
    }
}

/// Does the path name a zip archive, judged by its extension, ignoring case?
pub fn is_zip(path: &str) -> (r: bool)
    ensures
        r == spec_is_zip(path@),
{
    match extension_of(path) {
        Some(e) => {
            let lower = to_lowercase(e.as_str());
            chars_equal(&chars_of(lower.as_str()), "zip")
        },
        None => false,
    }
}

/// `n` is the listing `e` sorted by `field` in the given direction: a leading
/// ".." stays first, the folders after it up to the first file are sorted
/// stably among themselves, and so are the rest.
pub open spec fn sorted_as(e: Seq<EntryView>, n: Seq<EntryView>, field: SortField, ascending: bool) -> bool {
    let s = sort_start(e);
    let f = first_file_from(e, s);
    &&& n.len() == e.len()
    &&& n.take(s) == e.take(s)
    &&& stable_sorted(e.subrange(s, f), n.subrange(s, f), field, ascending)
    &&& stable_sorted(e.subrange(f, e.len() as int), n.subrange(f, e.len() as int), field, ascending)
}

/// Where sorting starts: after a leading ".." entry.
pub open spec fn sort_start(es: Seq<EntryView>) -> int {
    if es.len() > 0 && es[0].name == ".."@ {
        1
    } else {
        0
    }
}

/// The first entry from `k` on that is not a folder (the length if none is).
pub open spec fn first_file_from(es: Seq<EntryView>, k: int) -> int
    decreases es.len() - k,
{
    if k >= es.len() {
        es.len() as int
    } else if !es[k].is_dir {
        k
    } else {
        first_file_from(es, k + 1)
    }
}

proof fn lemma_first_file_from(es: Seq<EntryView>, k: int)
    requires
        0 <= k <= es.len(),
    ensures
        k <= first_file_from(es, k) <= es.len(),
        forall|m: int| k <= m < first_file_from(es, k) ==> (#[trigger] es[m]).is_dir,
        first_file_from(es, k) < es.len() ==> !es[first_file_from(es, k)].is_dir,
    decreases es.len() - k,
{
    if k < es.len() && es[k].is_dir {
        lemma_first_file_from(es, k + 1);
    }
}

impl DirState {
    /// Sort the folders among themselves and the files among themselves by
    /// `field`, stably, in the given direction; a leading ".." stays first.
    /// The folders are the entries after ".." up to the first file.
    pub fn sort(&mut self, field: SortField, ascending: bool)
        ensures
            sorted_as(views(old(self).entries@), views(final(self).entries@), field, ascending),
            final(self).image_count == old(self).image_count,
            final(self).dir_count == old(self).dir_count,
            final(self).zip_ctx == old(self).zip_ctx,
    {
        let n: usize = self.entries.len();
        let start: usize = if n > 0 && chars_equal(&chars_of(self.entries[0].name.as_str()), "..") {
            1
        } else {
            0
        };
        let mut file_start: usize = start;
        while file_start < n && self.entries[file_start].is_dir
            invariant
                start <= file_start <= n,
                n == self.entries@.len(),
                start == sort_start(views(self.entries@)),
                first_file_from(views(self.entries@), file_start as int) == first_file_from(views(self.entries@), start as int),
            decreases n - file_start,
        {
            file_start = file_start + 1;
        }
        let lowers = lowered_names(&self.entries, field);
        let dirs = sorted_segment(&self.entries, &lowers, field, ascending, start, file_start);
        let files = sorted_segment(&self.entries, &lowers, field, ascending, file_start, n);
        let mut out: Vec<DirEntry> = Vec::new();
        if start == 1 {
            out.push(self.entries[0].clone());
        }
        let mut k: usize = 0;
        while k < dirs.len()
            invariant
                0 <= k <= dirs@.len(),
                out@ == self.entries@.take(start as int) + dirs@.take(k as int),
            decreases dirs@.len() - k,
        {
            out.push(dirs[k].clone());
            assert(dirs@.take(k as int).push(dirs@[k as int]) =~= dirs@.take(k + 1));
            k = k + 1;
        }
        let ghost mid = out@;
        k = 0;
        while k < files.len()
            invariant
                0 <= k <= files@.len(),
                out@ == mid + files@.take(k as int),
            decreases files@.len() - k,
        {
            out.push(files[k].clone());
            assert(files@.take(k as int).push(files@[k as int]) =~= files@.take(k + 1));
            k = k + 1;
        }
        proof {
            let e = self.entries@;
            assert(dirs@.take(dirs@.len() as int) =~= dirs@);
            assert(files@.take(files@.len() as int) =~= files@);
            assert(dirs@.len() == file_start - start);
            assert(files@.len() == n - file_start);
            assert(out@.take(start as int) =~= e.take(start as int));
            assert(out@.subrange(start as int, file_start as int) =~= dirs@);
            assert(out@.subrange(file_start as int, n as int) =~= files@);
            assert(views(out@).take(start as int) =~= views(e).take(start as int));
            assert(views(out@).subrange(start as int, file_start as int) =~= views(dirs@));
            assert(views(out@).subrange(file_start as int, n as int) =~= views(files@));
            assert(views(e).subrange(start as int, file_start as int) =~= views(e.subrange(start as int, file_start as int)));
        }
        self.entries = out;
    }

    /// The files of the listing (entries that are not folders), with their
    /// positions, in listing order.
    pub fn image_entries(&self) -> (r: Vec<(usize, &DirEntry)>)
        ensures
            forall|k: int| 0 <= k < r@.len() ==> {
                let (i, e) = #[trigger] r@[k];
                &&& i < self.entries@.len()
                &&& *e == self.entries@[i as int]
                &&& !e.is_dir
            },
            forall|k: int, m: int| 0 <= k < m < r@.len() ==> (#[trigger] r@[k]).0 < (#[trigger] r@[m]).0,
            forall|i: int| 0 <= i < self.entries@.len() && !(#[trigger] self.entries@[i]).is_dir ==>
                exists|k: int| 0 <= k < r@.len() && r@[k].0 == i,
    {
        let mut out: Vec<(usize, &DirEntry)> = Vec::new();
        let mut i: usize = 0;
        while i < self.entries.len()
            invariant
                0 <= i <= self.entries@.len(),
                forall|k: int| 0 <= k < out@.len() ==> {
                    let (j, e) = #[trigger] out@[k];
                    &&& j < i
                    &&& *e == self.entries@[j as int]
                    &&& !e.is_dir
                },
                forall|k: int, m: int| 0 <= k < m < out@.len() ==> (#[trigger] out@[k]).0 < (#[trigger] out@[m]).0,
                forall|j: int| 0 <= j < i && !(#[trigger] self.entries@[j]).is_dir ==>
                    exists|k: int| 0 <= k < out@.len() && out@[k].0 == j,
            decreases self.entries@.len() - i,
        {
            let ghost old_out = out@;
            if !self.entries[i].is_dir {
                out.push((i, &self.entries[i]));
                assert(out@[out@.len() - 1].0 == i);
            }
            assert forall|j: int| 0 <= j < i + 1 && !(#[trigger] self.entries@[j]).is_dir implies
                exists|k: int| 0 <= k < out@.len() && out@[k].0 == j by {
                if j < i {
                    let k = choose|k: int| 0 <= k < old_out.len() && old_out[k].0 == j;
                    assert(out@[k] == old_out[k]);
                } else {
                    assert(out@[out@.len() - 1].0 == j);
                }
            }
            i = i + 1;
        }
        out
    }
}


/// Whole seconds since the Unix epoch of a modification time; times before
/// the epoch count as zero.
pub open spec fn epoch_secs(t: i128) -> int {
    if t >= 0 {
        t / 1_000_000_000
    } else {
        0
    }
}

/// "YYYY-MM-DD HH:MM" (UTC) of a modification time, or "" when there is none.
pub open spec fn date_text(t: Option<i128>) -> Seq<char> {
    match t {
        None => Seq::empty(),
        Some(n) => {
            let secs = epoch_secs(n);
            let days = secs / 86400;
            let tod = secs % 86400;
            let (y, m, d) = civil_from_days(days as nat);
            zero_padded(y as nat, 4) + "-"@ + zero_padded(m as nat, 2) + "-"@ + zero_padded(
                d as nat,
                2,
            ) + " "@ + zero_padded((tod / 3600) as nat, 2) + ":"@ + zero_padded(
                ((tod % 3600) / 60) as nat,
                2,
            )
        },
    }
}

/// Modification times whose seconds since the epoch fit the 64 bits a
/// `Duration` holds.
pub open spec fn time_in_range(t: Option<i128>) -> bool {
    match t {
        Some(n) => n / 1_000_000_000 <= u64::MAX,
        None => true,
    }
}

/// The modification time as "YYYY-MM-DD HH:MM" in UTC; "" when unknown.
pub fn format_date(t: Option<i128>) -> (r: String)
    requires
        time_in_range(t),
    ensures
        r@ == date_text(t),
{
    let n = match t {
        Some(n) => n,
        None => return String::new(),
    };
    let secs: u64 = if n >= 0 { (n / 1_000_000_000) as u64 } else { 0 };
    let days: u64 = secs / 86400;
    let time_of_day: u64 = secs % 86400;
    let hh: u64 = time_of_day / 3600;
    let mm: u64 = (time_of_day % 3600) / 60;
    let (y, m, d) = civil_date(days);
    let mut out = String::new();
    push_padded(&mut out, y, 4);
    push_str(&mut out, "-");
    push_padded(&mut out, m, 2);
    push_str(&mut out, "-");
    push_padded(&mut out, d, 2);
    push_str(&mut out, " ");
    push_padded(&mut out, hh, 2);
    push_str(&mut out, ":");
    push_padded(&mut out, mm, 2);
    out
}

/// `n / d` rounded to the nearest integer, ties to the even one.
pub open spec fn round_half_even(n: nat, d: nat) -> nat
    recommends
        d > 0,
{
    let q = n / d;
    let r = n % d;
    if 2 * r > d || (2 * r == d && q % 2 == 1) {
        q + 1
    } else {
        q
    }
}

/// The power of two by which the 53-bit significand of `b`, as a double,
/// is scaled: the least `u >= d` of the form `d * 2^k` with `b < 2^53 * u`.
pub open spec fn double_unit_from(b: nat, d: nat) -> nat
    decreases b - d,
    when d >= 1
{
    if b < 0x20_0000_0000_0000 * d {
        d
    } else {
        double_unit_from(b, 2 * d)
    }
}

/// The value of `b as f64`: `b` rounded to 53 significant bits, ties to even.
pub open spec fn as_double(b: nat) -> nat {
    let u = double_unit_from(b, 1);
    round_half_even(b, u) * u
}

/// `v` with one or two decimals: the integer part, a point and the decimals.
pub open spec fn fixed_text(scaled: nat, decimals: nat) -> Seq<char> {
    let base: nat = if decimals == 1 { 10 } else { 100 };
    decimal(scaled / base) + "."@ + zero_padded(scaled % base, decimals)
}

/// What `format_size` shows: bytes, or KiB, MiB (one decimal) or GiB (two
/// decimals), the decimals rounded half to even as formatting a double does.
pub open spec fn size_text(bytes: nat) -> Seq<char> {
    if bytes < 1024 {
        decimal(bytes) + " B"@
    } else if bytes < 1024 * 1024 {
        fixed_text(round_half_even(bytes * 10, 1024), 1) + " KB"@
    } else if bytes < 1024 * 1024 * 1024 {
        fixed_text(round_half_even(bytes * 10, 1024 * 1024), 1) + " MB"@
    } else {
        fixed_text(round_half_even(as_double(bytes) * 100, 1024 * 1024 * 1024), 2) + " GB"@
    }
}

fn round_half_even_exec(n: u128, d: u128) -> (r: u128)
    requires
        d > 0,
        n < u128::MAX / 2,
    ensures
        r as nat == round_half_even(n as nat, d as nat),
{
    let q: u128 = n / d;
    let r: u128 = n % d;
    if r > d - r || (r == d - r && q % 2 == 1) {
        q + 1
    } else {
        q
    }
}

fn as_double_exec(b: u64) -> (r: u128)
    ensures
        r as nat == as_double(b as nat),
        r <= 0x2_0000_0000_0000_0000,
{
    let mut u: u128 = 1;
    let big: u128 = b as u128;
    while big >= 0x20_0000_0000_0000 * u
        invariant
            1 <= u < 0x1000,
            big == b as u128,
            double_unit_from(b as nat, u as nat) == double_unit_from(b as nat, 1),
            u == 1 || u * 0x20_0000_0000_0000 <= 2 * big,
        decreases 0x1000 - u,
    {
        u = 2 * u;
    }
    let r = round_half_even_exec(big, u);
    assert(r * u <= big + u) by (nonlinear_arith)
        requires
            r == round_half_even(big as nat, u as nat),
            u > 0;
    r * u
}

fn push_fixed(out: &mut String, scaled: u128, decimals: usize)
    requires
        decimals == 1 || decimals == 2,
        scaled / 10 <= u64::MAX,
    ensures
        final(out)@ == old(out)@ + fixed_text(scaled as nat, decimals as nat),
{
    let base: u128 = if decimals == 1 { 10 } else { 100 };
    let whole: u64 = (scaled / base) as u64;
    let frac: u64 = (scaled % base) as u64;
    let digits = crate::text::decimal_digits(whole);
    let s = crate::text::string_of(&digits);
    push_str(out, s.as_str());
    push_str(out, ".");
    push_padded(out, frac, decimals);
}

/// A file size for display: "512 B", "1.5 KB", "12.3 MB", "1.25 GB".
pub fn format_size(bytes: u64) -> (r: String)
    ensures
        r@ == size_text(bytes as nat),
{
    let mut out = String::new();
    if bytes < 1024 {
        let digits = crate::text::decimal_digits(bytes);
        out = crate::text::string_of(&digits);
        push_str(&mut out, " B");
    } else if bytes < 1024 * 1024 {
        let scaled = round_half_even_exec(bytes as u128 * 10, 1024);
        push_fixed(&mut out, scaled, 1);
        push_str(&mut out, " KB");
    } else if bytes < 1024 * 1024 * 1024 {
        let scaled = round_half_even_exec(bytes as u128 * 10, 1024 * 1024);
        push_fixed(&mut out, scaled, 1);
        push_str(&mut out, " MB");
    } else {
        let f = as_double_exec(bytes);
        let scaled = round_half_even_exec(f * 100, 1024 * 1024 * 1024);
        push_fixed(&mut out, scaled, 2);
        push_str(&mut out, " GB");
    }
    out
}


/// What reading a directory gives for one of its entries.
pub struct ScannedEntry {
    pub path: String,
    /// The file name, as text.
    pub name: String,
    /// Whether the path is a directory (following links).
    pub is_dir: bool,
    /// The file's length in bytes, 0 when its metadata could not be read.
    pub size: u64,
    /// The modification time in nanoseconds since the epoch, when known.
    pub modified: Option<i128>,
}

/// One member of a zip archive, in archive order.
pub struct ZipMember {
    pub name: String,
    pub size: u64,
}

pub open spec fn is_hidden(name: Seq<char>) -> bool {
    name.len() > 0 && name[0] == '.'
}

/// Folders (and zip archives, which are browsed like folders) of a directory
/// read, in reading order; hidden names left out.
pub open spec fn scanned_dirs(raw: Seq<ScannedEntry>) -> Seq<EntryView>
    decreases raw.len(),
{
    if raw.len() == 0 {
        Seq::empty()
    } else {
        let prev = scanned_dirs(raw.drop_last());
        let e = raw.last();
        if !is_hidden(e.name@) && (e.is_dir || spec_is_zip(e.path@)) {
            prev.push(
                EntryView {
                    path: e.path@,
                    name: e.name@,
                    is_dir: true,
                    size: 0,
                    modified: e.modified,
                    zip_source: None,
                },
            )
        } else {
            prev
        }
    }
}

/// Images of a directory read, in reading order; hidden names left out.
pub open spec fn scanned_files(raw: Seq<ScannedEntry>) -> Seq<EntryView>
    decreases raw.len(),
{
    if raw.len() == 0 {
        Seq::empty()
    } else {
        let prev = scanned_files(raw.drop_last());
        let e = raw.last();
        if !is_hidden(e.name@) && !e.is_dir && !spec_is_zip(e.path@) && spec_is_image(e.path@) {
            prev.push(
                EntryView {
                    path: e.path@,
                    name: e.name@,
                    is_dir: false,
                    size: e.size,
                    modified: e.modified,
                    zip_source: None,
                },
            )
        } else {
            prev
        }
    }
}

/// The ".." entry leading to `path`.
pub open spec fn is_up_entry(e: EntryView, path: Seq<char>) -> bool {
    &&& e.path == path
    &&& e.name == ".."@
    &&& e.is_dir
    &&& e.size == 0
    &&& e.modified is None
    &&& e.zip_source is None
}

/// `entries` is `head` followed by `dirs` and `files`, each sorted stably by
/// name ignoring case.
pub open spec fn listing_of(
    entries: Seq<EntryView>,
    head: nat,
    dirs: Seq<EntryView>,
    files: Seq<EntryView>,
) -> bool {
    &&& entries.len() == head + dirs.len() + files.len()
    &&& stable_sorted(dirs, entries.subrange(head as int, (head + dirs.len()) as int), SortField::Name, true)
    &&& stable_sorted(
        files,
        entries.subrange((head + dirs.len()) as int, entries.len() as int),
        SortField::Name,
        true,
    )
}

fn up_entry(path: String) -> (r: DirEntry)
    ensures
        is_up_entry(r@, path@),
{
    let mut name = String::new();
    push_str(&mut name, "..");
    DirEntry { path, name, is_dir: true, size: 0, modified: None, zip_source: None }
}

fn append_sorted(out: &mut Vec<DirEntry>, items: &Vec<DirEntry>)
    ensures
        final(out)@.take(old(out)@.len() as int) == old(out)@,
        stable_sorted(
            views(items@),
            views(final(out)@).subrange(old(out)@.len() as int, final(out)@.len() as int),
            SortField::Name,
            true,
        ),
        final(out)@.len() == old(out)@.len() + items@.len(),
{
    let lowers = lowered_names(items, SortField::Name);
    let sorted = sorted_segment(items, &lowers, SortField::Name, true, 0, items.len());
    assert(views(items@).subrange(0, items@.len() as int) =~= views(items@));
    let ghost start = out@;
    let mut k: usize = 0;
    while k < sorted.len()
        invariant
            0 <= k <= sorted@.len(),
            out@ == start + sorted@.take(k as int),
        decreases sorted@.len() - k,
    {
        out.push(sorted[k].clone());
        assert(sorted@.take(k as int).push(sorted@[k as int]) =~= sorted@.take(k + 1));
        k = k + 1;
    }
    assert(sorted@.take(sorted@.len() as int) =~= sorted@);
    assert(out@.take(start.len() as int) =~= start);
    assert(out@.subrange(start.len() as int, out@.len() as int) =~= sorted@);
    assert(views(out@).subrange(start.len() as int, out@.len() as int) =~= views(sorted@));
}

impl DirState {
    /// The listing of a directory from what reading it gave: a ".." entry when
    /// the directory has a parent, then its folders and zip archives, then its
    /// images, each group sorted by name ignoring case; names starting with a
    /// dot are left out.
    pub fn scan(parent: Option<String>, raw: Vec<ScannedEntry>) -> (r: Self)
        ensures
            ({
                let head: nat = if parent is Some { 1 } else { 0 };
                &&& listing_of(views(r.entries@), head, scanned_dirs(raw@), scanned_files(raw@))
                &&& (parent matches Some(p) ==> is_up_entry(r.entries@[0]@, p@))
            }),
            r.dir_count == scanned_dirs(raw@).len(),
            r.image_count == scanned_files(raw@).len(),
            r.zip_ctx is None,
    {
        let mut dirs: Vec<DirEntry> = Vec::new();
        let mut files: Vec<DirEntry> = Vec::new();
        let mut i: usize = 0;
        while i < raw.len()
            invariant
                0 <= i <= raw@.len(),
                views(dirs@) == scanned_dirs(raw@.take(i as int)),
                views(files@) == scanned_files(raw@.take(i as int)),
            decreases raw@.len() - i,
        {
            let e = &raw[i];
            assert(raw@.take(i + 1).drop_last() =~= raw@.take(i as int));
            assert(raw@.take(i + 1).last() == raw@[i as int]);
            let name = chars_of(e.name.as_str());
            let hidden: bool = name.len() > 0 && name[0] == '.';
            if !hidden {
                if e.is_dir || is_zip(e.path.as_str()) {
                    dirs.push(
                        DirEntry {
                            path: e.path.clone(),
                            name: e.name.clone(),
                            is_dir: true,
                            size: 0,
                            modified: e.modified,
                            zip_source: None,
                        },
                    );
                } else if is_image(e.path.as_str()) {
                    files.push(
                        DirEntry {
                            path: e.path.clone(),
                            name: e.name.clone(),
                            is_dir: false,
                            size: e.size,
                            modified: e.modified,
                            zip_source: None,
                        },
                    );
                }
            }
            i = i + 1;
        }
        assert(raw@.take(raw@.len() as int) =~= raw@);
        let dir_count = dirs.len();
        let image_count = files.len();
        let mut entries: Vec<DirEntry> = Vec::new();
        match parent {
            Some(p) => {
                entries.push(up_entry(p));
            },
            None => {},
        }
        let ghost head = entries@;
        append_sorted(&mut entries, &dirs);
        let ghost mid = entries@;
        append_sorted(&mut entries, &files);
        proof {
            assert(entries@.subrange(head.len() as int, (head.len() + dirs@.len()) as int) =~= mid.subrange(
                head.len() as int,
                mid.len() as int,
            ));
            if head.len() > 0 {
                assert(entries@[0] == mid[0]);
                assert(mid[0] == head[0]);
            }
            assert(head.len() == (if parent is Some { 1nat } else { 0nat }));
            assert(mid.len() == head.len() + dirs@.len());
            assert(views(entries@).subrange(head.len() as int, (head.len() + dirs@.len()) as int) =~= views(mid).subrange(head.len() as int, mid.len() as int));
        }
        DirState { entries, image_count, dir_count, zip_ctx: None }
    }
}


/// Does some entry of `dirs` carry the name `n`?
pub open spec fn has_dir_named(dirs: Seq<EntryView>, n: Seq<char>) -> bool {
    exists|k: int| 0 <= k < dirs.len() && dirs[k].name == n
}

/// Folders and images of the archive folder `prefix`, from the first `k`
/// members in archive order. A member below the folder gives the folder of
/// its first path component, once per name; a member directly in it that
/// names an image gives an image row that reads from the archive.
pub open spec fn zip_rows(archive: Seq<char>, prefix: Seq<char>, ms: Seq<ZipMember>) -> (
    Seq<EntryView>,
    Seq<EntryView>,
)
    decreases ms.len(),
{
    if ms.len() == 0 {
        (Seq::empty(), Seq::empty())
    } else {
        let (dirs, files) = zip_rows(archive, prefix, ms.drop_last());
        let m = ms.last();
        let name = m.name@;
        if !starts_with(name, prefix) {
            (dirs, files)
        } else {
            let rel = name.subrange(prefix.len() as int, name.len() as int);
            if rel.len() == 0 {
                (dirs, files)
            } else {
                match first_index_of(rel, '/') {
                    Some(k) => {
                        let dn = rel.take(k);
                        if dn.len() > 0 && !has_dir_named(dirs, dn) {
                            (
                                dirs.push(
                                    EntryView {
                                        path: archive + "!"@ + prefix + dn,
                                        name: dn,
                                        is_dir: true,
                                        size: 0,
                                        modified: None,
                                        zip_source: None,
                                    },
                                ),
                                files,
                            )
                        } else {
                            (dirs, files)
                        }
                    },
                    None => {
                        if spec_is_image(rel) {
                            (
                                dirs,
                                files.push(
                                    EntryView {
                                        path: archive + "!"@ + name,
                                        name: rel,
                                        is_dir: false,
                                        size: m.size,
                                        modified: None,
                                        zip_source: Some((archive, name)),
                                    },
                                ),
                            )
                        } else {
                            (dirs, files)
                        }
                    },
                }
            }
        }
    }
}

/// Where ".." leads from the archive folder `prefix`: the folder holding the
/// archive ("/" when the archive path has no parent) at the archive's root,
/// else the enclosing folder inside the archive.
pub open spec fn zip_up_path(archive: Seq<char>, prefix: Seq<char>) -> Seq<char> {
    if prefix.len() == 0 {
        match path_parent(archive) {
            Some(p) => p,
            None => "/"@,
        }
    } else {
        archive + "!"@ + trim_end_char(prefix, '/')
    }
}

fn concat3(a: &str, b: &str, c: &Vec<char>) -> (r: String)
    ensures
        r@ == a@ + b@ + c@,
{
    let mut out = String::new();
    push_str(&mut out, a);
    push_str(&mut out, b);
    let cs = string_of(c);
    push_str(&mut out, cs.as_str());
    out
}

fn has_dir_named_exec(dirs: &Vec<DirEntry>, n: &Vec<char>) -> (r: bool)
    ensures
        r == has_dir_named(views(dirs@), n@),
{
    let mut k: usize = 0;
    while k < dirs.len()
        invariant
            0 <= k <= dirs@.len(),
            forall|j: int| 0 <= j < k ==> dirs@[j].name@ != n@,
        decreases dirs@.len() - k,
    {
        let nm = chars_of(dirs[k].name.as_str());
        if nm.len() == n.len() {
            let mut same: bool = true;
            let mut t: usize = 0;
            while t < n.len()
                invariant
                    0 <= t <= n@.len(),
                    nm@.len() == n@.len(),
                    same == (forall|q: int| 0 <= q < t ==> nm@[q] == n@[q]),
                decreases n@.len() - t,
            {
                if nm[t] != n[t] {
                    same = false;
                }
                t = t + 1;
            }
            if same {
                assert(nm@ =~= n@);
                assert(views(dirs@)[k as int].name == n@);
                return true;
            }
            assert(nm@ != n@) by {
                let q = choose|q: int| 0 <= q < n@.len() && nm@[q] != n@[q];
            }
        }
        k = k + 1;
    }
    proof {
        if has_dir_named(views(dirs@), n@) {
            let j = choose|j: int| 0 <= j < views(dirs@).len() && views(dirs@)[j].name == n@;
            assert(dirs@[j].name@ == n@);
        }
    }
    false
}

impl DirState {
    /// The listing of a folder inside a zip archive from the archive's members
    /// (those that could be read, in archive order): a ".." entry, then the
    /// sub-folders, then the images directly in the folder, each group sorted
    /// by name ignoring case. Rows are named "archive!member".
    pub fn scan_zip(ctx: &ZipContext, raw: Vec<ZipMember>) -> (r: Self)
        ensures
            ({
                let (dirs, files) = zip_rows(ctx.archive_path@, ctx.inner_prefix@, raw@);
                &&& listing_of(views(r.entries@), 1, dirs, files)
                &&& is_up_entry(r.entries@[0]@, zip_up_path(ctx.archive_path@, ctx.inner_prefix@))
                &&& r.dir_count == dirs.len()
                &&& r.image_count == files.len()
            }),
            r.zip_ctx == Some(*ctx),
    {
        let archive = chars_of(ctx.archive_path.as_str());
        let prefix = chars_of(ctx.inner_prefix.as_str());
        let mut dirs: Vec<DirEntry> = Vec::new();
        let mut files: Vec<DirEntry> = Vec::new();
        let mut i: usize = 0;
        while i < raw.len()
            invariant
                0 <= i <= raw@.len(),
                archive@ == ctx.archive_path@,
                prefix@ == ctx.inner_prefix@,
                (views(dirs@), views(files@)) == zip_rows(archive@, prefix@, raw@.take(i as int)),
            decreases raw@.len() - i,
        {
            assert(raw@.take(i + 1).drop_last() =~= raw@.take(i as int));
            assert(raw@.take(i + 1).last() == raw@[i as int]);
            let m = &raw[i];
            let name = chars_of(m.name.as_str());
            if starts_with_chars(&name, &prefix) {
                let rel = slice_chars(&name, prefix.len(), name.len());
                if rel.len() > 0 {
                    match find_char(&rel, '/') {
                        Some(k) => {
                            let dn = slice_chars(&rel, 0, k);
                            assert(dn@ =~= rel@.take(k as int));
                            if dn.len() > 0 && !has_dir_named_exec(&dirs, &dn) {
                                let mut path = concat3(ctx.archive_path.as_str(), "!", &prefix);
                                let dns = string_of(&dn);
                                push_str(&mut path, dns.as_str());
                                dirs.push(
                                    DirEntry {
                                        path,
                                        name: dns,
                                        is_dir: true,
                                        size: 0,
                                        modified: None,
                                        zip_source: None,
                                    },
                                );
                            }
                        },
                        None => {
                            let rels = string_of(&rel);
                            if is_image(rels.as_str()) {
                                let path = concat3(ctx.archive_path.as_str(), "!", &name);
                                files.push(
                                    DirEntry {
                                        path,
                                        name: rels,
                                        is_dir: false,
                                        size: m.size,
                                        modified: None,
                                        zip_source: Some(
                                            ZipSource {
                                                archive_path: ctx.archive_path.clone(),
                                                entry_name: m.name.clone(),
                                            },
                                        ),
                                    },
                                );
                            }
                        },
                    }
                }
            }
            i = i + 1;
        }
        assert(raw@.take(raw@.len() as int) =~= raw@);
        let dir_count = dirs.len();
        let image_count = files.len();
        let up_path = if prefix.len() == 0 {
            match parent_of(ctx.archive_path.as_str()) {
                Some(p) => p,
                None => {
                    let mut root = String::new();
                    push_str(&mut root, "/");
                    root
                },
            }
        } else {
            let trimmed = trim_end_chars(&prefix, '/');
            concat3(ctx.archive_path.as_str(), "!", &trimmed)
        };
        let mut entries: Vec<DirEntry> = Vec::new();
        entries.push(up_entry(up_path));
        let ghost head = entries@;
        append_sorted(&mut entries, &dirs);
        let ghost mid = entries@;
        append_sorted(&mut entries, &files);
        proof {
            assert(entries@[0] == mid[0]);
            assert(mid[0] == head[0]);
            assert(views(entries@).subrange(1, (1 + dirs@.len()) as int) =~= views(mid).subrange(1, mid.len() as int));
        }
        DirState { entries, image_count, dir_count, zip_ctx: Some(ctx.clone()) }
    }
}


/// The layout a scan gives: after a leading "..", folders first, then only
/// files.
pub open spec fn folders_then_files(es: Seq<EntryView>) -> bool {
    forall|i: int, j: int|
        #![trigger es[i], es[j]]
        sort_start(es) <= i < j < es.len() && !es[i].is_dir ==> !es[j].is_dir
}

proof fn lemma_first_file_at(es: Seq<EntryView>, k: int, t: int)
    requires
        0 <= k <= t <= es.len(),
        forall|m: int| k <= m < t ==> (#[trigger] es[m]).is_dir,
        t < es.len() ==> !es[t].is_dir,
    ensures
        first_file_from(es, k) == t,
    decreases t - k,
{
    if k < t {
        lemma_first_file_at(es, k + 1, t);
    }
}

/// Sorting a stretch of folders gives folders; of files, files.
proof fn lemma_sorted_kinds(input: Seq<EntryView>, out: Seq<EntryView>, field: SortField, ascending: bool)
    requires
        stable_sorted(input, out, field, ascending),
    ensures
        out.len() == input.len(),
        (forall|j: int| 0 <= j < input.len() ==> (#[trigger] input[j]).is_dir) ==> forall|i: int|
            0 <= i < out.len() ==> (#[trigger] out[i]).is_dir,
        (forall|j: int| 0 <= j < input.len() ==> !(#[trigger] input[j]).is_dir) ==> forall|i: int|
            0 <= i < out.len() ==> !(#[trigger] out[i]).is_dir,
{
    let p = choose|p: Seq<int>| stable_sorted_with(input, out, field, ascending, p);
    assert forall|i: int| 0 <= i < out.len() implies out[i] == input[p[i]] && 0 <= p[i] < input.len() by {}
}

/// After one sort of a listing laid out as a scan gives it, the folders
/// still come before the files, and each group is in order.
proof fn lemma_sorted_layout(e: Seq<EntryView>, n1: Seq<EntryView>, field: SortField, ascending: bool)
    requires
        folders_then_files(e),
        sorted_as(e, n1, field, ascending),
    ensures
        ({
            let s = sort_start(e);
            let f = first_file_from(e, s);
            &&& s <= f <= e.len()
            &&& n1.len() == e.len()
            &&& n1.take(s) == e.take(s)
            &&& forall|m: int| s <= m < f ==> (#[trigger] n1[m]).is_dir
            &&& forall|m: int| f <= m < e.len() ==> !(#[trigger] n1[m]).is_dir
            &&& in_order(n1.subrange(s, f), field, ascending)
            &&& in_order(n1.subrange(f, e.len() as int), field, ascending)
        }),
{
    let len = e.len() as int;
    let s = sort_start(e);
    let f = first_file_from(e, s);
    lemma_first_file_from(e, s);
    let ed = e.subrange(s, f);
    let ef = e.subrange(f, len);
    let nd = n1.subrange(s, f);
    let nf = n1.subrange(f, len);
    assert forall|j: int| 0 <= j < ed.len() implies (#[trigger] ed[j]).is_dir by {
        assert(ed[j] == e[s + j]);
    }
    assert forall|j: int| 0 <= j < ef.len() implies !(#[trigger] ef[j]).is_dir by {
        assert(ef[j] == e[f + j]);
        if j > 0 {
            assert(!e[f].is_dir);
            assert(!e[f + j].is_dir);
        }
    }
    lemma_sorted_kinds(ed, nd, field, ascending);
    lemma_sorted_kinds(ef, nf, field, ascending);
    assert forall|m: int| s <= m < f implies (#[trigger] n1[m]).is_dir by {
        assert(n1[m] == nd[m - s]);
    }
    assert forall|m: int| f <= m < len implies !(#[trigger] n1[m]).is_dir by {
        assert(n1[m] == nf[m - f]);
    }
    lemma_sorted_in_order(ed, nd, field, ascending);
    lemma_sorted_in_order(ef, nf, field, ascending);
}

/// Sorting a listing laid out as a scan gives it (folders, then files) a
/// second time with the same field and direction changes nothing.
#[verifier::spinoff_prover]
pub proof fn law_sort_twice_changes_nothing(
    e: Seq<EntryView>,
    n1: Seq<EntryView>,
    n2: Seq<EntryView>,
    field: SortField,
    ascending: bool,
)
    requires
        folders_then_files(e),
        sorted_as(e, n1, field, ascending),
        sorted_as(n1, n2, field, ascending),
    ensures
        n2 == n1,
{
    let len = e.len() as int;
    let s = sort_start(e);
    let f = first_file_from(e, s);
    lemma_sorted_layout(e, n1, field, ascending);
    // Where the second sort starts and where its files begin.
    let s2 = sort_start(n1);
    if s == 1 {
        assert(n1[0] == n1.take(1)[0]);
        assert(e[0] == e.take(1)[0]);
    }
    assert(s <= s2 <= s + 1);
    let g = if s2 <= f { f } else { s2 };
    lemma_first_file_at(n1, s2, g);
    let f2 = first_file_from(n1, s2);
    assert(f2 == g);
    // Each stretch the second sort sorts is a stretch of an ordered one.
    if s2 <= f {
        lemma_in_order_subrange(n1.subrange(s, f), field, ascending, s2 - s, f2 - s);
        assert(n1.subrange(s, f).subrange(s2 - s, f2 - s) =~= n1.subrange(s2, f2));
    } else {
        assert(n1.subrange(s2, f2) =~= Seq::<EntryView>::empty());
    }
    lemma_resort_in_order(n1.subrange(s2, f2), n2.subrange(s2, f2), field, ascending);
    lemma_in_order_subrange(n1.subrange(f, len), field, ascending, f2 - f, len - f);
    assert(n1.subrange(f, len).subrange(f2 - f, len - f) =~= n1.subrange(f2, len));
    lemma_resort_in_order(n1.subrange(f2, len), n2.subrange(f2, len), field, ascending);
    assert forall|m: int| 0 <= m < len implies n2[m] == n1[m] by {
        if m < s2 {
            assert(n2[m] == n2.take(s2)[m] && n1[m] == n1.take(s2)[m]);
        } else if m < f2 {
            assert(n2[m] == n2.subrange(s2, f2)[m - s2] && n1[m] == n1.subrange(s2, f2)[m - s2]);
        } else {
            assert(n2[m] == n2.subrange(f2, len)[m - f2] && n1[m] == n1.subrange(f2, len)[m - f2]);
        }
    }
    assert(n2 =~= n1);
}


/// "YYYY-MM-DD HH:MM" of the given year, month, day, hour and minute.
pub open spec fn stamp(y: nat, m: nat, d: nat, hh: nat, mm: nat) -> Seq<char> {
    zero_padded(y, 4) + "-"@ + zero_padded(m, 2) + "-"@ + zero_padded(d, 2) + " "@ + zero_padded(hh, 2) + ":"@
        + zero_padded(mm, 2)
}

/// Year, month, day, hour and minute compared in that order: -1, 0 or 1.
pub open spec fn stamp_order(a: (nat, nat, nat, nat, nat), b: (nat, nat, nat, nat, nat)) -> int {
    if a.0 != b.0 {
        int_order(a.0 as int, b.0 as int)
    } else if a.1 != b.1 {
        int_order(a.1 as int, b.1 as int)
    } else if a.2 != b.2 {
        int_order(a.2 as int, b.2 as int)
    } else if a.3 != b.3 {
        int_order(a.3 as int, b.3 as int)
    } else {
        int_order(a.4 as int, b.4 as int)
    }
}

proof fn lemma_padded_order(a: nat, b: nat, w: nat)
    requires
        w >= 1,
        a < crate::text::pow10(w),
        b < crate::text::pow10(w),
    ensures
        zero_padded(a, w).len() == w,
        zero_padded(b, w).len() == w,
        seq_order(zero_padded(a, w), zero_padded(b, w)) == int_order(a as int, b as int),
{
    crate::text::lemma_zero_padded_digits(a, w);
    crate::text::lemma_zero_padded_digits(b, w);
    lemma_digits_order(a, b, w);
}

/// Stamps with a four-digit year and two-digit fields compare as their
/// fields do, year first.
proof fn lemma_stamp_order(a: (nat, nat, nat, nat, nat), b: (nat, nat, nat, nat, nat))
    requires
        a.0 < 10000 && b.0 < 10000,
        a.1 < 100 && b.1 < 100 && a.2 < 100 && b.2 < 100,
        a.3 < 100 && b.3 < 100 && a.4 < 100 && b.4 < 100,
    ensures
        seq_order(stamp(a.0, a.1, a.2, a.3, a.4), stamp(b.0, b.1, b.2, b.3, b.4)) == stamp_order(a, b),
{
    reveal_with_fuel(crate::text::pow10, 5);
    lemma_padded_order(a.0, b.0, 4);
    lemma_padded_order(a.1, b.1, 2);
    lemma_padded_order(a.2, b.2, 2);
    lemma_padded_order(a.3, b.3, 2);
    lemma_padded_order(a.4, b.4, 2);
    lemma_seq_order_same("-"@);
    lemma_seq_order_same(" "@);
    lemma_seq_order_same(":"@);
    let a1 = zero_padded(a.0, 4);
    let b1 = zero_padded(b.0, 4);
    let a2 = a1 + "-"@;
    let b2 = b1 + "-"@;
    lemma_seq_order_concat(a1, b1, "-"@, "-"@);
    let a3 = a2 + zero_padded(a.1, 2);
    let b3 = b2 + zero_padded(b.1, 2);
    lemma_seq_order_concat(a2, b2, zero_padded(a.1, 2), zero_padded(b.1, 2));
    let a4 = a3 + "-"@;
    let b4 = b3 + "-"@;
    lemma_seq_order_concat(a3, b3, "-"@, "-"@);
    let a5 = a4 + zero_padded(a.2, 2);
    let b5 = b4 + zero_padded(b.2, 2);
    lemma_seq_order_concat(a4, b4, zero_padded(a.2, 2), zero_padded(b.2, 2));
    let a6 = a5 + " "@;
    let b6 = b5 + " "@;
    lemma_seq_order_concat(a5, b5, " "@, " "@);
    let a7 = a6 + zero_padded(a.3, 2);
    let b7 = b6 + zero_padded(b.3, 2);
    lemma_seq_order_concat(a6, b6, zero_padded(a.3, 2), zero_padded(b.3, 2));
    let a8 = a7 + ":"@;
    let b8 = b7 + ":"@;
    lemma_seq_order_concat(a7, b7, ":"@, ":"@);
    lemma_seq_order_concat(a8, b8, zero_padded(a.4, 2), zero_padded(b.4, 2));
}

/// The fields a time's text shows: year, month, day, hour and minute.
pub open spec fn stamp_fields(n: i128) -> (nat, nat, nat, nat, nat) {
    let secs = epoch_secs(n);
    let days = secs / 86400;
    let tod = secs % 86400;
    let (y, m, d) = civil_from_days(days as nat);
    (y as nat, m as nat, d as nat, (tod / 3600) as nat, ((tod % 3600) / 60) as nat)
}

/// Nanoseconds from the epoch to the start of the year 10000.
pub open spec fn year_10000_nanos() -> int {
    253402300800int * 1_000_000_000int
}

/// Hours and minutes of two times of day keep their order.
proof fn lemma_clock_order(r1: int, r2: int)
    requires
        0 <= r1 <= r2 < 86400,
    ensures
        r2 / 3600 < 24,
        (r2 % 3600) / 60 < 60,
        (r1 % 3600) / 60 < 60,
        r1 / 3600 <= r2 / 3600,
        r1 / 3600 == r2 / 3600 ==> (r1 % 3600) / 60 <= (r2 % 3600) / 60,
{
    assert(r2 / 3600 < 24 && r1 / 3600 <= r2 / 3600) by (nonlinear_arith)
        requires
            0 <= r1 <= r2 < 86400,
    ;
    assert(r1 / 3600 == r2 / 3600 ==> (r1 % 3600) / 60 <= (r2 % 3600) / 60) by (nonlinear_arith)
        requires
            0 <= r1 <= r2,
    ;
}

/// The text of a time is the stamp of its fields, and the fields of an
/// earlier time do not come after those of a later one.
proof fn lemma_stamp_fields_order(t1: i128, t2: i128)
    requires
        0 <= t1 <= t2,
        t2 < year_10000_nanos(),
    ensures
        ({
            let a = stamp_fields(t1);
            let b = stamp_fields(t2);
            &&& a.0 < 10000 && b.0 < 10000
            &&& a.1 < 100 && b.1 < 100 && a.2 < 100 && b.2 < 100
            &&& a.3 < 100 && b.3 < 100 && a.4 < 100 && b.4 < 100
            &&& stamp_order(a, b) <= 0
            &&& date_text(Some(t1)) == stamp(a.0, a.1, a.2, a.3, a.4)
            &&& date_text(Some(t2)) == stamp(b.0, b.1, b.2, b.3, b.4)
        }),
{
    let s1 = epoch_secs(t1);
    let s2 = epoch_secs(t2);
    assert(0 <= s1 <= s2 < 253402300800) by (nonlinear_arith)
        requires
            s1 == t1 / 1_000_000_000,
            s2 == t2 / 1_000_000_000,
            0 <= t1 <= t2,
            t2 < 253402300800 * 1_000_000_000,
    ;
    let d1 = s1 / 86400;
    let d2 = s2 / 86400;
    let r1 = s1 % 86400;
    let r2 = s2 % 86400;
    assert(0 <= d1 <= d2 <= 2932896 && 0 <= r1 < 86400 && 0 <= r2 < 86400 && (d1 == d2 ==> r1 <= r2))
        by (nonlinear_arith)
        requires
            d1 == s1 / 86400,
            d2 == s2 / 86400,
            r1 == s1 % 86400,
            r2 == s2 % 86400,
            0 <= s1 <= s2 < 253402300800,
    ;
    lemma_date_order(d1 as nat, d2 as nat);
    lemma_date_order(d2 as nat, d2 as nat);
    lemma_civil_bounds(d1 as nat);
    lemma_civil_bounds(d2 as nat);
    lemma_clock_order(r1, r1);
    lemma_clock_order(r2, r2);
    if d1 == d2 {
        lemma_clock_order(r1, r2);
    }
    let a = stamp_fields(t1);
    let b = stamp_fields(t2);
    let (y1, m1, x1) = civil_from_days(d1 as nat);
    let (y2, m2, x2) = civil_from_days(d2 as nat);
    assert(a == (y1 as nat, m1 as nat, x1 as nat, (r1 / 3600) as nat, ((r1 % 3600) / 60) as nat));
    assert(b == (y2 as nat, m2 as nat, x2 as nat, (r2 / 3600) as nat, ((r2 % 3600) / 60) as nat));
    if d1 < d2 {
        assert((y1, m1, x1) != (y2, m2, x2)) by {
            lemma_date_key_monotone(d1 as nat, d2 as nat);
        }
    }
}

/// The text of a time follows the order of time: of two modification times
/// from the epoch on and before the year 10000, the earlier one's text does
/// not sort after the later one's (by code points, as `String` compares).
pub proof fn law_date_text_follows_time(t1: i128, t2: i128)
    requires
        0 <= t1 <= t2,
        t2 < year_10000_nanos(),
    ensures
        seq_order(date_text(Some(t1)), date_text(Some(t2))) <= 0,
        date_text(Some(t1)).len() == date_text(Some(t2)).len(),
{
    lemma_stamp_fields_order(t1, t2);
    let a = stamp_fields(t1);
    let b = stamp_fields(t2);
    lemma_stamp_order(a, b);
    reveal_with_fuel(crate::text::pow10, 5);
    crate::text::lemma_zero_padded_digits(a.0, 4);
    crate::text::lemma_zero_padded_digits(b.0, 4);
    crate::text::lemma_zero_padded_digits(a.1, 2);
    crate::text::lemma_zero_padded_digits(b.1, 2);
    crate::text::lemma_zero_padded_digits(a.2, 2);
    crate::text::lemma_zero_padded_digits(b.2, 2);
    crate::text::lemma_zero_padded_digits(a.3, 2);
    crate::text::lemma_zero_padded_digits(b.3, 2);
    crate::text::lemma_zero_padded_digits(a.4, 2);
    crate::text::lemma_zero_padded_digits(b.4, 2);
}

/// Neither group of a directory read holds a name that starts with a dot.
proof fn lemma_scanned_not_hidden(raw: Seq<ScannedEntry>)
    ensures
        forall|k: int| 0 <= k < scanned_dirs(raw).len() ==> !(#[trigger] scanned_dirs(raw)[k].name.len() > 0
            && scanned_dirs(raw)[k].name[0] == '.'),
        forall|k: int| 0 <= k < scanned_files(raw).len() ==> !(#[trigger] scanned_files(raw)[k].name.len() > 0
            && scanned_files(raw)[k].name[0] == '.'),
    decreases raw.len(),
{
    if raw.len() > 0 {
        lemma_scanned_not_hidden(raw.drop_last());
    }
}

/// A scanned listing shows no hidden name: after the ".." entry (when there
/// is one, `head` being 1), no entry has a name starting with a dot, so an
/// entry read from the directory under such a name is listed nowhere.
pub proof fn law_scan_leaves_out_dot_names(raw: Seq<ScannedEntry>, entries: Seq<EntryView>, head: nat)
    requires
        listing_of(entries, head, scanned_dirs(raw), scanned_files(raw)),
    ensures
        forall|k: int| head <= k < entries.len() ==> !(#[trigger] entries[k].name.len() > 0 && entries[k].name[0] == '.'),
        forall|j: int| 0 <= j < raw.len() && raw[j].name@.len() > 0 && raw[j].name@[0] == '.' ==>
            forall|k: int| head <= k < entries.len() ==> #[trigger] entries[k].name != raw[j].name@,
{
    let dirs = scanned_dirs(raw);
    let files = scanned_files(raw);
    let mid = (head + dirs.len()) as int;
    let n = entries.len() as int;
    lemma_scanned_not_hidden(raw);
    let ds = entries.subrange(head as int, mid);
    let fs = entries.subrange(mid, n);
    crate::sorting::law_sort_keeps_entries(dirs, ds, SortField::Name, true);
    crate::sorting::law_sort_keeps_entries(files, fs, SortField::Name, true);
    assert forall|k: int| head <= k < entries.len() implies !(#[trigger] entries[k].name.len() > 0
        && entries[k].name[0] == '.') by {
        if k < mid {
            assert(entries[k] == ds[k - head]);
            assert(crate::sorting::occurs_in(dirs, ds[k - head]));
            let j = choose|j: int| 0 <= j < dirs.len() && dirs[j] == ds[k - head];
            assert(dirs[j].name == entries[k].name);
        } else {
            assert(entries[k] == fs[k - mid]);
            assert(crate::sorting::occurs_in(files, fs[k - mid]));
            let j = choose|j: int| 0 <= j < files.len() && files[j] == fs[k - mid];
            assert(files[j].name == entries[k].name);
        }
    }
}

} // verus!
