//! Image metadata: EXIF fields of photos and the text chunks of PNG files,
//! and the lines the metadata panel shows.
use exif::{In, Reader, Tag};
use std::io::Cursor;
use vstd::prelude::*;

use crate::text::{
    byte_prefix, char_boundary, chars_of, lowercase, path_extension, push_str, string_of,
    take_bytes, to_lowercase, utf8_len, utf8_len_capped,
};

verus! {

/// The EXIF fields the viewer shows, as text.
#[derive(Debug, Clone)]
pub struct ExifData {
    pub camera: Option<String>,
    pub lens: Option<String>,
    pub exposure: Option<String>,
    pub iso: Option<String>,
    pub aperture: Option<String>,
    pub focal_length: Option<String>,
    pub date: Option<String>,
    pub gps: Option<String>,
}

/// A text chunk of a PNG file.
#[derive(Debug, Clone)]
pub struct TextChunk {
    pub key: String,
    pub value: String,
}

/// The metadata of an image: EXIF fields, or PNG text chunks.
#[derive(Debug, Clone)]
pub struct ImageMetadata {
    pub exif: Option<ExifData>,
    pub text_chunks: Vec<TextChunk>,
}

pub open spec fn opt_text(o: Option<String>) -> Option<Seq<char>> {
    match o {
        Some(s) => Some(s@),
        None => None,
    }
}

/// EXIF fields as plain values, in the order of `ExifData`.
pub struct ExifView {
    pub camera: Option<Seq<char>>,
    pub lens: Option<Seq<char>>,
    pub exposure: Option<Seq<char>>,
    pub iso: Option<Seq<char>>,
    pub aperture: Option<Seq<char>>,
    pub focal_length: Option<Seq<char>>,
    pub date: Option<Seq<char>>,
    pub gps: Option<Seq<char>>,
}

impl View for ExifData {
    type V = ExifView;

    open spec fn view(&self) -> ExifView {
        ExifView {
            camera: opt_text(self.camera),
            lens: opt_text(self.lens),
            exposure: opt_text(self.exposure),
            iso: opt_text(self.iso),
            aperture: opt_text(self.aperture),
            focal_length: opt_text(self.focal_length),
            date: opt_text(self.date),
            gps: opt_text(self.gps),
        }
    }
}

/// The EXIF fields as `kamadak-exif` shows them: the first seven with their
/// units, the four GPS fields as bare values.
#[derive(Debug)]
pub struct ExifFields {
    pub model: Option<String>,
    pub lens_model: Option<String>,
    pub exposure_time: Option<String>,
    pub sensitivity: Option<String>,
    pub f_number: Option<String>,
    pub focal_length: Option<String>,
    pub date_time_original: Option<String>,
    pub latitude: Option<String>,
    pub latitude_ref: Option<String>,
    pub longitude: Option<String>,
    pub longitude_ref: Option<String>,
}

/// EXIF fields as plain values, in the order of `ExifFields`.
pub struct ExifFieldsView {
    pub model: Option<Seq<char>>,
    pub lens_model: Option<Seq<char>>,
    pub exposure_time: Option<Seq<char>>,
    pub sensitivity: Option<Seq<char>>,
    pub f_number: Option<Seq<char>>,
    pub focal_length: Option<Seq<char>>,
    pub date_time_original: Option<Seq<char>>,
    pub latitude: Option<Seq<char>>,
    pub latitude_ref: Option<Seq<char>>,
    pub longitude: Option<Seq<char>>,
    pub longitude_ref: Option<Seq<char>>,
}

impl View for ExifFields {
    type V = ExifFieldsView;

    open spec fn view(&self) -> ExifFieldsView {
        ExifFieldsView {
            model: opt_text(self.model),
            lens_model: opt_text(self.lens_model),
            exposure_time: opt_text(self.exposure_time),
            sensitivity: opt_text(self.sensitivity),
            f_number: opt_text(self.f_number),
            focal_length: opt_text(self.focal_length),
            date_time_original: opt_text(self.date_time_original),
            latitude: opt_text(self.latitude),
            latitude_ref: opt_text(self.latitude_ref),
            longitude: opt_text(self.longitude),
            longitude_ref: opt_text(self.longitude_ref),
        }
    }
}

/// What `kamadak-exif` reads from an image file's bytes: `None` when it
/// finds no EXIF data it can parse, else the fields of the primary image.
pub uninterp spec fn exif_fields_of(bytes: Seq<u8>) -> Option<ExifFieldsView>;

/// Reads the EXIF data of an image file's bytes with
/// `exif::Reader::read_from_container`, then each field of the primary image
/// with `Exif::get_field`, shown with `display_value` (and `with_unit` for
/// all but the GPS fields). The result is the named reading of the bytes.
#[verifier::external_body]
fn read_exif_fields(bytes: &[u8]) -> (r: Option<ExifFields>)
    ensures
        match r {
            Some(f) => exif_fields_of(bytes@) == Some(f@),
            None => exif_fields_of(bytes@) is None,
        },
{
    let x = Reader {}.read_from_container(&mut Cursor::new(bytes)).ok()?;
    let unit = |t| x.get_field(t, In::PRIMARY).map(|f| f.display_value().with_unit(&x).to_string());
    let bare = |t| x.get_field(t, In::PRIMARY).map(|f| f.display_value().to_string());
    Some(ExifFields { model: unit(Tag::Model), lens_model: unit(Tag::LensModel),
        exposure_time: unit(Tag::ExposureTime), sensitivity: unit(Tag::PhotographicSensitivity),
        f_number: unit(Tag::FNumber), focal_length: unit(Tag::FocalLength),
        date_time_original: unit(Tag::DateTimeOriginal), latitude: bare(Tag::GPSLatitude),
        latitude_ref: bare(Tag::GPSLatitudeRef), longitude: bare(Tag::GPSLongitude),
        longitude_ref: bare(Tag::GPSLongitudeRef) })
}

/// "lat ref / lon ref" when all four GPS fields are there.
pub open spec fn gps_text(f: ExifFieldsView) -> Option<Seq<char>> {
    match (f.latitude, f.latitude_ref, f.longitude, f.longitude_ref) {
        (Some(a), Some(b), Some(c), Some(d)) => Some(a + " "@ + b + " / "@ + c + " "@ + d),
        _ => None,
    }
}

/// The shown fields of an EXIF reading: camera model, lens, exposure time,
/// ISO, f-number, focal length, original date, and the position.
pub open spec fn exif_of_fields(f: ExifFieldsView) -> ExifView {
    ExifView {
        camera: f.model,
        lens: f.lens_model,
        exposure: f.exposure_time,
        iso: f.sensitivity,
        aperture: f.f_number,
        focal_length: f.focal_length,
        date: f.date_time_original,
        gps: gps_text(f),
    }
}

/// See `exif_of_fields`.
pub fn exif_from_fields(f: ExifFields) -> (r: ExifData)
    ensures
        r@ == exif_of_fields(f@),
{
    let gps = match (&f.latitude, &f.latitude_ref, &f.longitude, &f.longitude_ref) {
        (Some(a), Some(b), Some(c), Some(d)) => {
            let mut s = String::new();
            push_str(&mut s, a.as_str());
            push_str(&mut s, " ");
            push_str(&mut s, b.as_str());
            push_str(&mut s, " / ");
            push_str(&mut s, c.as_str());
            push_str(&mut s, " ");
            push_str(&mut s, d.as_str());
            Some(s)
        },
        _ => None,
    };
    ExifData {
        camera: f.model,
        lens: f.lens_model,
        exposure: f.exposure_time,
        iso: f.sensitivity,
        aperture: f.f_number,
        focal_length: f.focal_length,
        date: f.date_time_original,
        gps,
    }
}

/// The EXIF data of an image file's bytes, if it has any.
pub fn read_exif(bytes: &[u8]) -> (r: Option<ExifData>)
    ensures
        match r {
            Some(e) => exif_fields_of(bytes@) matches Some(f) && e@ == exif_of_fields(f),
            None => exif_fields_of(bytes@) is None,
        },
{
    match read_exif_fields(bytes) {
        Some(f) => Some(exif_from_fields(f)),
        None => None,
    }
}

/// The text chunks `png` reads from a PNG file's header: the Latin-1 ones,
/// the compressed Latin-1 ones and the UTF-8 ones, each with its keyword;
/// for the last two the text when it could be decompressed.
#[derive(Debug)]
pub struct PngTexts {
    pub latin1: Vec<(String, String)>,
    pub compressed: Vec<(String, Option<String>)>,
    pub utf8: Vec<(String, Option<String>)>,
}

/// PNG text chunks as plain values.
pub struct PngTextsView {
    pub latin1: Seq<(Seq<char>, Seq<char>)>,
    pub compressed: Seq<(Seq<char>, Option<Seq<char>>)>,
    pub utf8: Seq<(Seq<char>, Option<Seq<char>>)>,
}

pub open spec fn pair_texts(v: Seq<(String, String)>) -> Seq<(Seq<char>, Seq<char>)> {
    v.map_values(|p: (String, String)| (p.0@, p.1@))
}

pub open spec fn maybe_texts(v: Seq<(String, Option<String>)>) -> Seq<(Seq<char>, Option<Seq<char>>)> {
    v.map_values(|p: (String, Option<String>)| (p.0@, opt_text(p.1)))
}

impl View for PngTexts {
    type V = PngTextsView;

    open spec fn view(&self) -> PngTextsView {
        PngTextsView {
            latin1: pair_texts(self.latin1@),
            compressed: maybe_texts(self.compressed@),
            utf8: maybe_texts(self.utf8@),
        }
    }
}

/// What `png` reads from a PNG file's bytes up to its image data: `None`
/// when the header cannot be read, else its text chunks.
pub uninterp spec fn png_texts_of(bytes: Seq<u8>) -> Option<PngTextsView>;

/// Reads a PNG file's header with `png::Decoder::read_info` and lists its
/// text chunks, decompressing each compressed one with `get_text`. The result
/// is the named reading of the bytes.
#[verifier::external_body]
fn read_png_texts(bytes: &[u8]) -> (r: Option<PngTexts>)
    ensures
        match r {
            Some(t) => png_texts_of(bytes@) == Some(t@),
            None => png_texts_of(bytes@) is None,
        },
{
    let reader = png::Decoder::new(std::io::Cursor::new(bytes)).read_info().ok()?;
    let info = reader.info();
    Some(PngTexts {
        latin1: info.uncompressed_latin1_text.iter().map(|t| (t.keyword.clone(), t.text.clone())).collect(),
        compressed: info.compressed_latin1_text.iter().map(|t| (t.keyword.clone(), t.get_text().ok())).collect(),
        utf8: info.utf8_text.iter().map(|t| (t.keyword.clone(), t.get_text().ok())).collect(),
    })
}

/// The chunks of a reading, in order: every Latin-1 chunk, then the
/// compressed and the UTF-8 chunks whose text could be read.
pub open spec fn chunks_of(t: PngTextsView) -> Seq<(Seq<char>, Seq<char>)> {
    t.latin1 + readable(t.compressed) + readable(t.utf8)
}

/// The chunks whose text could be read.
pub open spec fn readable(v: Seq<(Seq<char>, Option<Seq<char>>)>) -> Seq<(Seq<char>, Seq<char>)>
    decreases v.len(),
{
    if v.len() == 0 {
        Seq::empty()
    } else {
        let rest = readable(v.drop_last());
        match v.last().1 {
            Some(text) => rest.push((v.last().0, text)),
            None => rest,
        }
    }
}

pub open spec fn chunk_views(v: Seq<TextChunk>) -> Seq<(Seq<char>, Seq<char>)> {
    v.map_values(|c: TextChunk| (c.key@, c.value@))
}

fn clone_text(s: &String) -> (r: String)
    ensures
        r@ == s@,
{
    s.clone()
}

fn push_readable(out: &mut Vec<TextChunk>, v: &Vec<(String, Option<String>)>)
    ensures
        chunk_views(final(out)@) == chunk_views(old(out)@) + readable(maybe_texts(v@)),
{
    let ghost start = chunk_views(out@);
    let ghost mv = maybe_texts(v@);
    let mut k: usize = 0;
    while k < v.len()
        invariant
            0 <= k <= v@.len(),
            mv == maybe_texts(v@),
            chunk_views(out@) == start + readable(mv.take(k as int)),
        decreases v@.len() - k,
    {
        assert(mv.take(k + 1).drop_last() =~= mv.take(k as int));
        match &v[k].1 {
            Some(text) => {
                let ghost before = out@;
                out.push(TextChunk { key: clone_text(&v[k].0), value: clone_text(text) });
                assert(chunk_views(out@) =~= chunk_views(before).push((v@[k as int].0@, text@)));
            },
            None => {},
        }
        k = k + 1;
    }
    assert(mv.take(v@.len() as int) =~= mv);
}

/// The text chunks of a reading (see `chunks_of`).
pub fn chunks_from(t: &PngTexts) -> (r: Vec<TextChunk>)
    ensures
        chunk_views(r@) == chunks_of(t@),
{
    let mut out: Vec<TextChunk> = Vec::new();
    let mut k: usize = 0;
    while k < t.latin1.len()
        invariant
            0 <= k <= t.latin1@.len(),
            chunk_views(out@) == pair_texts(t.latin1@).take(k as int),
        decreases t.latin1@.len() - k,
    {
        let ghost before = out@;
        out.push(TextChunk { key: clone_text(&t.latin1[k].0), value: clone_text(&t.latin1[k].1) });
        assert(chunk_views(out@) =~= chunk_views(before).push(pair_texts(t.latin1@)[k as int]));
        assert(pair_texts(t.latin1@).take(k + 1) =~= pair_texts(t.latin1@).take(k as int).push(
            pair_texts(t.latin1@)[k as int],
        ));
        k = k + 1;
    }
    assert(pair_texts(t.latin1@).take(t.latin1@.len() as int) =~= pair_texts(t.latin1@));
    push_readable(&mut out, &t.compressed);
    push_readable(&mut out, &t.utf8);
    out
}

/// Where an image's metadata comes from, by its extension: PNG files have
/// text chunks, other files EXIF data; a path without an extension has none.
pub open spec fn metadata_kind(path: Seq<char>) -> Option<bool> {
    match path_extension(path) {
        Some(e) => Some(lowercase(e) == "png"@),
        None => None,
    }
}

/// The metadata of an image file (`path`, read as `bytes`): the text chunks
/// of a PNG file when it has any, else the EXIF data when there is some;
/// `None` when there is nothing to show.
pub open spec fn metadata_of(path: Seq<char>, bytes: Seq<u8>) -> Option<(Option<ExifView>, Seq<(Seq<char>, Seq<char>)>)> {
    match metadata_kind(path) {
        None => None,
        Some(true) => {
            let chunks = match png_texts_of(bytes) {
                Some(t) => chunks_of(t),
                None => Seq::empty(),
            };
            if chunks.len() == 0 {
                None
            } else {
                Some((None, chunks))
            }
        },
        Some(false) => match exif_fields_of(bytes) {
            Some(f) => Some((Some(exif_of_fields(f)), Seq::empty())),
            None => None,
        },
    }
}

pub open spec fn meta_view(m: ImageMetadata) -> (Option<ExifView>, Seq<(Seq<char>, Seq<char>)>) {
    (
        match m.exif {
            Some(e) => Some(e@),
            None => None,
        },
        chunk_views(m.text_chunks@),
    )
}

/// See `metadata_of`.
pub fn read_metadata(path: &str, bytes: &[u8]) -> (r: Option<ImageMetadata>)
    ensures
        match r {
            Some(m) => metadata_of(path@, bytes@) == Some(meta_view(m)),
            None => metadata_of(path@, bytes@) is None,
        },
{
    let ext = match crate::text::extension_of(path) {
        Some(e) => to_lowercase(e.as_str()),
        None => return None,
    };
    if crate::text::chars_equal(&chars_of(ext.as_str()), "png") {
        let chunks = match read_png_texts(bytes) {
            Some(t) => chunks_from(&t),
            None => Vec::new(),
        };
        if chunks.len() == 0 {
            None
        } else {
            Some(ImageMetadata { exif: None, text_chunks: chunks })
        }
    } else {
        match read_exif(bytes) {
            Some(e) => Some(ImageMetadata { exif: Some(e), text_chunks: Vec::new() }),
            None => None,
        }
    }
}


// ---------------------------------------------------------------------------
// The lines of the metadata panels
// ---------------------------------------------------------------------------

/// Append `(label, v)` when the field is present.
pub open spec fn with_field(lines: Seq<(Seq<char>, Seq<char>)>, label: Seq<char>, v: Option<Seq<char>>) -> Seq<(Seq<char>, Seq<char>)> {
    match v {
        Some(t) => lines.push((label, t)),
        None => lines,
    }
}

/// The present EXIF fields as labelled lines: camera, lens, exposure,
/// aperture, ISO, focal length, date, GPS.
pub open spec fn exif_field_lines(e: ExifView) -> Seq<(Seq<char>, Seq<char>)> {
    let l1 = with_field(Seq::empty(), "Camera"@, e.camera);
    let l2 = with_field(l1, "Lens"@, e.lens);
    let l3 = with_field(l2, "Exposure"@, e.exposure);
    let l4 = with_field(l3, "Aperture"@, e.aperture);
    let l5 = with_field(l4, "ISO"@, e.iso);
    let l6 = with_field(l5, "Focal"@, e.focal_length);
    let l7 = with_field(l6, "Date"@, e.date);
    with_field(l7, "GPS"@, e.gps)
}

pub open spec fn line_views(v: Seq<(String, String)>) -> Seq<(Seq<char>, Seq<char>)> {
    v.map_values(|p: (String, String)| (p.0@, p.1@))
}

fn text_of(s: &str) -> (r: String)
    ensures
        r@ == s@,
{
    let mut out = String::new();
    push_str(&mut out, s);
    out
}

fn push_field(lines: &mut Vec<(String, String)>, label: &str, v: &Option<String>)
    ensures
        line_views(final(lines)@) == with_field(line_views(old(lines)@), label@, opt_text(*v)),
{
    match v {
        Some(t) => {
            let ghost before = lines@;
            lines.push((text_of(label), clone_text(t)));
            assert(line_views(lines@) =~= line_views(before).push((label@, t@)));
        },
        None => {},
    }
}

fn exif_field_lines_exec(lines: &mut Vec<(String, String)>, e: &ExifData)
    ensures
        line_views(final(lines)@) == line_views(old(lines)@) + exif_field_lines(e@),
{
    let ghost start = line_views(lines@);
    push_field(lines, "Camera", &e.camera);
    push_field(lines, "Lens", &e.lens);
    push_field(lines, "Exposure", &e.exposure);
    push_field(lines, "Aperture", &e.aperture);
    push_field(lines, "ISO", &e.iso);
    push_field(lines, "Focal", &e.focal_length);
    push_field(lines, "Date", &e.date);
    push_field(lines, "GPS", &e.gps);
    proof {
        let ev = e@;
        let l1 = with_field(Seq::empty(), "Camera"@, ev.camera);
        let s1 = with_field(start, "Camera"@, ev.camera);
        assert(s1 =~= start + l1);
        let l2 = with_field(l1, "Lens"@, ev.lens);
        let s2 = with_field(s1, "Lens"@, ev.lens);
        assert(s2 =~= start + l2);
        let l3 = with_field(l2, "Exposure"@, ev.exposure);
        let s3 = with_field(s2, "Exposure"@, ev.exposure);
        assert(s3 =~= start + l3);
        let l4 = with_field(l3, "Aperture"@, ev.aperture);
        let s4 = with_field(s3, "Aperture"@, ev.aperture);
        assert(s4 =~= start + l4);
        let l5 = with_field(l4, "ISO"@, ev.iso);
        let s5 = with_field(s4, "ISO"@, ev.iso);
        assert(s5 =~= start + l5);
        let l6 = with_field(l5, "Focal"@, ev.focal_length);
        let s6 = with_field(s5, "Focal"@, ev.focal_length);
        assert(s6 =~= start + l6);
        let l7 = with_field(l6, "Date"@, ev.date);
        let s7 = with_field(s6, "Date"@, ev.date);
        assert(s7 =~= start + l7);
        let l8 = with_field(l7, "GPS"@, ev.gps);
        let s8 = with_field(s7, "GPS"@, ev.gps);
        assert(s8 =~= start + l8);
    }
}

/// The EXIF panel: the present fields, or a single unlabelled
/// "No EXIF data" line when there are none (or no EXIF at all).
pub open spec fn exif_lines(e: Option<ExifView>) -> Seq<(Seq<char>, Seq<char>)> {
    let lines = match e {
        Some(x) => exif_field_lines(x),
        None => Seq::empty(),
    };
    if lines.len() == 0 {
        seq![(Seq::empty(), "No EXIF data"@)]
    } else {
        lines
    }
}

/// See `exif_lines`.
pub fn exif_panel_lines(e: Option<&ExifData>) -> (r: Vec<(String, String)>)
    ensures
        line_views(r@) == exif_lines(
            match e {
                Some(x) => Some(x@),
                None => None,
            },
        ),
{
    let mut lines: Vec<(String, String)> = Vec::new();
    match e {
        Some(x) => {
            exif_field_lines_exec(&mut lines, x);
            assert(line_views(lines@) =~= exif_field_lines(x@));
        },
        None => {},
    }
    if lines.len() == 0 {
        lines.push((String::new(), text_of("No EXIF data")));
        assert(line_views(lines@) =~= seq![(Seq::<char>::empty(), "No EXIF data"@)]);
    }
    lines
}

/// A chunk's text as one line: cut to its first 200 bytes and "..." when
/// longer, line breaks turned into spaces.
pub open spec fn chunk_line(value: Seq<char>) -> Seq<char> {
    let cut = if utf8_len(value) > 200 { byte_prefix(value, 200) + "..."@ } else { value };
    cut.map_values(|c: char| if c == '\n' { ' ' } else { c })
}

/// Chunks whose text is cut must have a character start at byte 200.
pub open spec fn cuttable(chunks: Seq<(Seq<char>, Seq<char>)>) -> bool {
    forall|k: int| 0 <= k < chunks.len() && utf8_len(#[trigger] chunks[k].1) > 200 ==> char_boundary(chunks[k].1, 200)
}

fn chunk_line_text(value: &String) -> (r: String)
    requires
        utf8_len(value@) > 200 ==> char_boundary(value@, 200),
    ensures
        r@ == chunk_line(value@),
{
    let cs = chars_of(value.as_str());
    let ghost want = if utf8_len(value@) > 200 { byte_prefix(value@, 200) + "..."@ } else { value@ };
    proof {
        reveal_strlit("...");
    }
    let mut cut = if utf8_len_capped(&cs, 200) > 200 {
        let mut h = take_bytes(&cs, 200);
        h.push('.');
        h.push('.');
        h.push('.');
        assert(h@ =~= want);
        h
    } else {
        cs
    };
    let ghost before = cut@;
    assert(before == want);
    let mut k: usize = 0;
    while k < cut.len()
        invariant
            0 <= k <= cut@.len(),
            cut@.len() == before.len(),
            forall|j: int| 0 <= j < k ==> cut@[j] == (if before[j] == '\n' { ' ' } else { before[j] }),
            forall|j: int| k <= j < cut@.len() ==> cut@[j] == before[j],
        decreases cut@.len() - k,
    {
        if cut[k] == '\n' {
            cut.set(k, ' ');
        }
        k = k + 1;
    }
    assert(cut@ =~= chunk_line(value@));
    string_of(&cut)
}

/// The metadata panel: the present EXIF fields, then each text chunk as a
/// line labelled by its keyword; a single unlabelled "No metadata" line when
/// that gives nothing (or there is no metadata).
pub open spec fn metadata_lines(m: Option<(Option<ExifView>, Seq<(Seq<char>, Seq<char>)>)>) -> Seq<(Seq<char>, Seq<char>)> {
    let lines = match m {
        Some((e, chunks)) => (match e {
            Some(x) => exif_field_lines(x),
            None => Seq::empty(),
        }) + chunks.map_values(|c: (Seq<char>, Seq<char>)| (c.0, chunk_line(c.1))),
        None => Seq::empty(),
    };
    if lines.len() == 0 {
        seq![(Seq::empty(), "No metadata"@)]
    } else {
        lines
    }
}

/// See `metadata_lines`.
pub fn metadata_panel_lines(m: Option<&ImageMetadata>) -> (r: Vec<(String, String)>)
    requires
        m matches Some(x) ==> cuttable(chunk_views(x.text_chunks@)),
    ensures
        line_views(r@) == metadata_lines(
            match m {
                Some(x) => Some(meta_view(*x)),
                None => None,
            },
        ),
{
    let mut lines: Vec<(String, String)> = Vec::new();
    match m {
        Some(x) => {
            let ghost ex = match &x.exif {
                Some(e) => exif_field_lines(e@),
                None => Seq::empty(),
            };
            match &x.exif {
                Some(e) => exif_field_lines_exec(&mut lines, e),
                None => {},
            }
            assert(line_views(lines@) =~= ex);
            let ghost cv = chunk_views(x.text_chunks@);
            let ghost mapped = cv.map_values(|c: (Seq<char>, Seq<char>)| (c.0, chunk_line(c.1)));
            let mut k: usize = 0;
            while k < x.text_chunks.len()
                invariant
                    0 <= k <= x.text_chunks@.len(),
                    cv == chunk_views(x.text_chunks@),
                    cuttable(cv),
                    mapped == cv.map_values(|c: (Seq<char>, Seq<char>)| (c.0, chunk_line(c.1))),
                    line_views(lines@) == ex + mapped.take(k as int),
                decreases x.text_chunks@.len() - k,
            {
                let c = &x.text_chunks[k];
                assert(cv[k as int] == (c.key@, c.value@));
                assert(utf8_len(cv[k as int].1) > 200 ==> char_boundary(cv[k as int].1, 200));
                let line = chunk_line_text(&c.value);
                let ghost before = lines@;
                lines.push((clone_text(&c.key), line));
                assert(line_views(lines@) =~= line_views(before).push((c.key@, chunk_line(c.value@))));
                assert(mapped.take(k + 1) =~= mapped.take(k as int).push(mapped[k as int]));
                k = k + 1;
            }
            assert(mapped.take(x.text_chunks@.len() as int) =~= mapped);
        },
        None => {},
    }
    if lines.len() == 0 {
        lines.push((String::new(), text_of("No metadata")));
        assert(line_views(lines@) =~= seq![(Seq::<char>::empty(), "No metadata"@)]);
    }
    lines
}

} // verus!
