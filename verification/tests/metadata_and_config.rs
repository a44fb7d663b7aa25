use riv::config::{clone_strings, startup_settings, Config, Defaults, ToolConfig};
use riv::metadata::{
    chunks_from, exif_from_fields, exif_panel_lines, metadata_panel_lines, read_exif, read_metadata, ExifData,
    ExifFields, ImageMetadata, PngTexts, TextChunk,
};
use riv::state::{SortField, ViewMode};

/// A little-endian TIFF whose first directory holds only a camera model.
fn tiff_with_model(model: &[u8; 3]) -> Vec<u8> {
    let mut b = vec![b'I', b'I', 42, 0, 8, 0, 0, 0];
    b.extend_from_slice(&[1, 0]);
    b.extend_from_slice(&[0x10, 0x01, 2, 0, 4, 0, 0, 0]);
    b.extend_from_slice(model);
    b.push(0);
    b.extend_from_slice(&[0, 0, 0, 0]);
    b
}

fn png_with_text(chunks: &[(&str, &str)]) -> Vec<u8> {
    let mut buf = Vec::new();
    {
        let mut enc = png::Encoder::new(&mut buf, 1, 1);
        enc.set_color(png::ColorType::Rgba);
        enc.set_depth(png::BitDepth::Eight);
        for (k, v) in chunks {
            enc.add_text_chunk(k.to_string(), v.to_string()).unwrap();
        }
        let mut w = enc.write_header().unwrap();
        w.write_image_data(&[1, 2, 3, 4]).unwrap();
    }
    buf
}

fn fields() -> ExifFields {
    ExifFields {
        model: Some("\"X100\"".to_string()),
        lens_model: None,
        exposure_time: Some("1/250 s".to_string()),
        sensitivity: Some("200".to_string()),
        f_number: Some("f/2".to_string()),
        focal_length: None,
        date_time_original: None,
        latitude: Some("35 deg 0 min 0 sec".to_string()),
        latitude_ref: Some("N".to_string()),
        longitude: Some("139 deg 0 min 0 sec".to_string()),
        longitude_ref: Some("E".to_string()),
    }
}

#[test]
fn exif_fields_become_panel_fields() {
    let e = exif_from_fields(fields());
    assert_eq!(e.camera.as_deref(), Some("\"X100\""));
    assert_eq!(e.exposure.as_deref(), Some("1/250 s"));
    assert_eq!(e.iso.as_deref(), Some("200"));
    assert_eq!(e.aperture.as_deref(), Some("f/2"));
    assert_eq!(e.gps.as_deref(), Some("35 deg 0 min 0 sec N / 139 deg 0 min 0 sec E"));
    let mut partial = fields();
    partial.longitude_ref = None;
    assert_eq!(exif_from_fields(partial).gps, None);
}

#[test]
fn exif_read_from_tiff_bytes() {
    let e = read_exif(&tiff_with_model(b"Cam")).unwrap();
    assert_eq!(e.camera.as_deref(), Some("\"Cam\""));
    assert_eq!(e.lens, None);
    assert_eq!(e.gps, None);
    assert!(read_exif(&[1, 2, 3]).is_none());
}

#[test]
fn metadata_of_png_text_chunks() {
    let bytes = png_with_text(&[("parameters", "steps: 20"), ("Comment", "hi")]);
    let m = read_metadata("/x/gen.PNG", &bytes).unwrap();
    assert!(m.exif.is_none());
    let pairs: Vec<(String, String)> = m.text_chunks.iter().map(|c| (c.key.clone(), c.value.clone())).collect();
    assert_eq!(pairs, vec![("parameters".to_string(), "steps: 20".to_string()), ("Comment".to_string(), "hi".to_string())]);
    assert!(read_metadata("/x/plain.png", &png_with_text(&[])).is_none());
    assert!(read_metadata("/x/broken.png", &[0, 1, 2]).is_none());
}

#[test]
fn metadata_of_other_files_is_exif() {
    let m = read_metadata("/x/photo.jpg", &tiff_with_model(b"Abc")).unwrap();
    assert_eq!(m.exif.unwrap().camera.as_deref(), Some("\"Abc\""));
    assert!(m.text_chunks.is_empty());
    assert!(read_metadata("/x/photo.jpg", &[0, 0]).is_none());
    assert!(read_metadata("/x/noext", &tiff_with_model(b"Abc")).is_none());
}

#[test]
fn chunks_keep_readable_text_in_order() {
    let t = PngTexts {
        latin1: vec![("a".to_string(), "1".to_string())],
        compressed: vec![("b".to_string(), None), ("c".to_string(), Some("3".to_string()))],
        utf8: vec![("d".to_string(), Some("4".to_string()))],
    };
    let keys: Vec<(String, String)> = chunks_from(&t).into_iter().map(|c| (c.key, c.value)).collect();
    assert_eq!(
        keys,
        vec![("a".to_string(), "1".to_string()), ("c".to_string(), "3".to_string()), ("d".to_string(), "4".to_string())]
    );
}

fn pairs(v: &[(&str, &str)]) -> Vec<(String, String)> {
    v.iter().map(|(a, b)| (a.to_string(), b.to_string())).collect()
}

#[test]
fn exif_panel() {
    assert_eq!(exif_panel_lines(None), pairs(&[("", "No EXIF data")]));
    let empty = ExifData { camera: None, lens: None, exposure: None, iso: None, aperture: None, focal_length: None, date: None, gps: None };
    assert_eq!(exif_panel_lines(Some(&empty)), pairs(&[("", "No EXIF data")]));
    let e = exif_from_fields(fields());
    assert_eq!(
        exif_panel_lines(Some(&e)),
        pairs(&[
            ("Camera", "\"X100\""),
            ("Exposure", "1/250 s"),
            ("Aperture", "f/2"),
            ("ISO", "200"),
            ("GPS", "35 deg 0 min 0 sec N / 139 deg 0 min 0 sec E"),
        ])
    );
}

#[test]
fn metadata_panel_cuts_and_flattens_chunks() {
    assert_eq!(metadata_panel_lines(None), pairs(&[("", "No metadata")]));
    let long = "x".repeat(250);
    let m = ImageMetadata {
        exif: None,
        text_chunks: vec![
            TextChunk { key: "k1".to_string(), value: "line one\nline two".to_string() },
            TextChunk { key: "k2".to_string(), value: long },
        ],
    };
    let lines = metadata_panel_lines(Some(&m));
    assert_eq!(lines[0], ("k1".to_string(), "line one line two".to_string()));
    assert_eq!(lines[1].0, "k2");
    assert_eq!(lines[1].1, format!("{}...", "x".repeat(200)));
    let none = ImageMetadata { exif: None, text_chunks: vec![] };
    assert_eq!(metadata_panel_lines(Some(&none)), pairs(&[("", "No metadata")]));
}

#[test]
fn tool_command_falls_back_to_name() {
    let mut c = Config::default();
    assert_eq!(c.tool_command("gimp"), ("gimp".to_string(), Vec::<String>::new()));
    c.tools.push((
        "krita".to_string(),
        ToolConfig { command: "/opt/krita/bin/krita".to_string(), args: vec!["--nosplash".to_string()] },
    ));
    assert_eq!(c.tool_command("krita"), ("/opt/krita/bin/krita".to_string(), vec!["--nosplash".to_string()]));
    assert_eq!(c.tool_command("gimp").0, "gimp");
}

#[test]
fn clone_strings_copies() {
    let v = vec!["a".to_string(), "bc".to_string()];
    assert_eq!(clone_strings(&v), v);
}

#[test]
fn startup_settings_layering() {
    let none = Defaults { view: None, sort: None, sort_desc: None, thumb_size: None };
    let s = startup_settings(&none, None, None, false, None);
    assert_eq!((s.view_mode, s.sort_field, s.sort_ascending, s.thumb_size), (ViewMode::List, SortField::Name, true, 160));
    let d = Defaults { view: Some("grid".to_string()), sort: Some("date".to_string()), sort_desc: Some(true), thumb_size: Some(96) };
    let s = startup_settings(&d, None, None, false, None);
    assert_eq!((s.view_mode, s.sort_field, s.sort_ascending, s.thumb_size), (ViewMode::Grid, SortField::Date, false, 96));
    let s = startup_settings(&d, Some("list"), Some("size"), false, Some(160));
    assert_eq!((s.view_mode, s.sort_field, s.sort_ascending, s.thumb_size), (ViewMode::List, SortField::Size, false, 160));
    let s = startup_settings(&d, None, None, false, Some(200));
    assert_eq!(s.thumb_size, 200);
    let s = startup_settings(&none, Some("weird"), Some("other"), true, Some(128));
    assert_eq!((s.view_mode, s.sort_field, s.sort_ascending, s.thumb_size), (ViewMode::List, SortField::Name, false, 128));
}
