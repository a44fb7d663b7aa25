use riv::calendar::civil_date;
use riv::dir::{format_date, format_size, is_image, is_zip, DirEntry, DirState, ScannedEntry, ZipContext, ZipMember};
use riv::state::SortField;

fn scanned(path: &str, name: &str, is_dir: bool, size: u64, modified: Option<i128>) -> ScannedEntry {
    ScannedEntry { path: path.to_string(), name: name.to_string(), is_dir, size, modified }
}

fn names(d: &DirState) -> Vec<String> {
    d.entries.iter().map(|e| e.name.clone()).collect()
}

fn file(name: &str, size: u64, modified: Option<i128>) -> DirEntry {
    DirEntry {
        path: format!("/p/{}", name),
        name: name.to_string(),
        is_dir: false,
        size,
        modified,
        zip_source: None,
    }
}

fn folder(name: &str) -> DirEntry {
    DirEntry { path: format!("/p/{}", name), name: name.to_string(), is_dir: true, size: 0, modified: None, zip_source: None }
}

#[test]
fn image_extensions_are_recognised_ignoring_case() {
    assert!(is_image("/a/b.png"));
    assert!(is_image("/a/b.JPG"));
    assert!(is_image("photo.Jpeg"));
    assert!(is_image("x.webp"));
    assert!(is_image("x.svgz"));
    assert!(is_image("doc.PDF"));
    assert!(is_image("raw.cr2"));
    assert!(is_image("raw.NEF"));
    assert!(is_image("raw.dng"));
    assert!(!is_image("notes.txt"));
    assert!(!is_image("archive.zip"));
    assert!(!is_image("noext"));
    assert!(!is_image("/dir.png/file"));
    assert!(!is_image(".png"));
    assert!(!is_image("image.heic"));
}

#[test]
fn zip_extension_is_recognised_ignoring_case() {
    assert!(is_zip("a.zip"));
    assert!(is_zip("/x/y/A.ZIP"));
    assert!(!is_zip("a.zipx"));
    assert!(!is_zip("zip"));
    assert!(!is_zip("a.png"));
}

#[test]
fn format_size_small_values_in_bytes() {
    assert_eq!(format_size(0), "0 B");
    assert_eq!(format_size(512), "512 B");
    assert_eq!(format_size(1023), "1023 B");
}

#[test]
fn format_size_scaled_values() {
    assert_eq!(format_size(1024), "1.0 KB");
    assert_eq!(format_size(1536), "1.5 KB");
    assert_eq!(format_size(1024 * 1024), "1.0 MB");
    assert_eq!(format_size(12 * 1024 * 1024 + 300 * 1024), "12.3 MB");
    assert_eq!(format_size(1024 * 1024 * 1024), "1.00 GB");
    assert_eq!(format_size(1024 * 1024 * 1024 + 256 * 1024 * 1024), "1.25 GB");
}

#[test]
fn format_size_matches_float_formatting() {
    let mut b: u64 = 1024;
    while b < 4 * 1024 * 1024 {
        let expected = if b < 1024 * 1024 {
            format!("{:.1} KB", b as f64 / 1024.0)
        } else {
            format!("{:.1} MB", b as f64 / (1024.0 * 1024.0))
        };
        assert_eq!(format_size(b), expected, "bytes {}", b);
        b += 37;
    }
    for b in [1024u64 * 1024 * 1024, 5_000_000_000, 123_456_789_012, u64::MAX / 3] {
        assert_eq!(format_size(b), format!("{:.2} GB", b as f64 / (1024.0 * 1024.0 * 1024.0)));
    }
}

#[test]
fn format_date_known_instants() {
    assert_eq!(format_date(None), "");
    assert_eq!(format_date(Some(0)), "1970-01-01 00:00");
    assert_eq!(format_date(Some(1_700_000_000 * 1_000_000_000)), "2023-11-14 22:13");
    assert_eq!(format_date(Some(951_782_400 * 1_000_000_000 + 59_000_000_000)), "2000-02-29 00:00");
    assert_eq!(format_date(Some(-5_000_000_000)), "1970-01-01 00:00");
}

#[test]
fn civil_date_of_day_numbers() {
    assert_eq!(civil_date(0), (1970, 1, 1));
    assert_eq!(civil_date(59), (1970, 3, 1));
    assert_eq!(civil_date(11016), (2000, 2, 29));
    assert_eq!(civil_date(19675), (2023, 11, 14));
}

#[test]
fn scan_orders_folders_then_images_and_skips_hidden() {
    let raw = vec![
        scanned("/p/b.png", "b.png", false, 10, None),
        scanned("/p/Zeta", "Zeta", true, 0, None),
        scanned("/p/.hidden.png", ".hidden.png", false, 1, None),
        scanned("/p/A.jpg", "A.jpg", false, 20, Some(5)),
        scanned("/p/alpha", "alpha", true, 0, None),
        scanned("/p/notes.txt", "notes.txt", false, 3, None),
        scanned("/p/pack.zip", "pack.zip", false, 99, None),
    ];
    let d = DirState::scan(Some("/".to_string()), raw);
    assert_eq!(names(&d), vec!["..", "alpha", "pack.zip", "Zeta", "A.jpg", "b.png"]);
    assert_eq!(d.dir_count, 3);
    assert_eq!(d.image_count, 2);
    assert!(d.zip_ctx.is_none());
    assert_eq!(d.entries[0].path, "/");
    assert!(d.entries[0].is_dir);
    // zip archives are listed as folders with no size
    assert!(d.entries[2].is_dir);
    assert_eq!(d.entries[2].size, 0);
    assert_eq!(d.entries[4].size, 20);
    assert_eq!(d.entries[4].modified, Some(5));
}

#[test]
fn scan_without_parent_has_no_up_entry() {
    let d = DirState::scan(None, vec![scanned("/x.png", "x.png", false, 1, None)]);
    assert_eq!(names(&d), vec!["x.png"]);
}

#[test]
fn scan_zip_root_lists_folders_and_images() {
    let ctx = ZipContext { archive_path: "/d/pics.zip".to_string(), inner_prefix: String::new() };
    let raw = vec![
        ZipMember { name: "sub/".to_string(), size: 0 },
        ZipMember { name: "sub/in.png".to_string(), size: 5 },
        ZipMember { name: "top.JPG".to_string(), size: 7 },
        ZipMember { name: "readme.txt".to_string(), size: 1 },
        ZipMember { name: "a.png".to_string(), size: 3 },
    ];
    let d = DirState::scan_zip(&ctx, raw);
    assert_eq!(names(&d), vec!["..", "sub", "a.png", "top.JPG"]);
    assert_eq!(d.entries[0].path, "/d");
    assert_eq!(d.entries[1].path, "/d/pics.zip!sub");
    assert_eq!(d.entries[2].path, "/d/pics.zip!a.png");
    let z = d.entries[3].zip_source.as_ref().unwrap();
    assert_eq!(z.archive_path, "/d/pics.zip");
    assert_eq!(z.entry_name, "top.JPG");
    assert_eq!(d.entries[3].size, 7);
    assert_eq!(d.dir_count, 1);
    assert_eq!(d.image_count, 2);
    assert_eq!(d.zip_ctx.as_ref().unwrap().archive_path, "/d/pics.zip");
}

#[test]
fn scan_zip_subfolder_goes_up_inside_archive() {
    let ctx = ZipContext { archive_path: "/d/pics.zip".to_string(), inner_prefix: "sub/".to_string() };
    let raw = vec![
        ZipMember { name: "sub/".to_string(), size: 0 },
        ZipMember { name: "sub/in.png".to_string(), size: 5 },
        ZipMember { name: "sub/deep/x.png".to_string(), size: 5 },
        ZipMember { name: "sub/deep/y.png".to_string(), size: 5 },
        ZipMember { name: "other.png".to_string(), size: 5 },
    ];
    let d = DirState::scan_zip(&ctx, raw);
    assert_eq!(names(&d), vec!["..", "deep", "in.png"]);
    assert_eq!(d.entries[0].path, "/d/pics.zip!sub");
    assert_eq!(d.entries[1].path, "/d/pics.zip!sub/deep");
    assert_eq!(d.entries[2].path, "/d/pics.zip!sub/in.png");
}

#[test]
fn sort_by_size_descending_keeps_up_entry_and_groups() {
    let mut d = DirState {
        entries: vec![
            DirEntry { path: "/".to_string(), name: "..".to_string(), is_dir: true, size: 0, modified: None, zip_source: None },
            folder("b"),
            folder("a"),
            file("s.png", 1, None),
            file("l.png", 300, None),
            file("m.png", 20, None),
        ],
        image_count: 3,
        dir_count: 2,
        zip_ctx: None,
    };
    d.sort(SortField::Size, false);
    assert_eq!(names(&d), vec!["..", "b", "a", "l.png", "m.png", "s.png"]);
    d.sort(SortField::Name, true);
    assert_eq!(names(&d), vec!["..", "a", "b", "l.png", "m.png", "s.png"]);
    assert_eq!(d.image_count, 3);
    assert_eq!(d.dir_count, 2);
}

#[test]
fn sort_by_date_puts_unknown_first_and_is_stable() {
    let mut d = DirState {
        entries: vec![
            file("x.png", 0, Some(30)),
            file("y.png", 0, None),
            file("z.png", 0, Some(10)),
            file("w.png", 0, Some(10)),
        ],
        image_count: 4,
        dir_count: 0,
        zip_ctx: None,
    };
    d.sort(SortField::Date, true);
    assert_eq!(names(&d), vec!["y.png", "z.png", "w.png", "x.png"]);
    d.sort(SortField::Date, false);
    assert_eq!(names(&d), vec!["x.png", "z.png", "w.png", "y.png"]);
}

#[test]
fn sort_by_name_ignores_case() {
    let mut d = DirState {
        entries: vec![file("b.png", 0, None), file("C.png", 0, None), file("a.png", 0, None)],
        image_count: 3,
        dir_count: 0,
        zip_ctx: None,
    };
    d.sort(SortField::Name, true);
    assert_eq!(names(&d), vec!["a.png", "b.png", "C.png"]);
    d.sort(SortField::Name, false);
    assert_eq!(names(&d), vec!["C.png", "b.png", "a.png"]);
}

#[test]
fn image_entries_lists_files_with_positions() {
    let d = DirState {
        entries: vec![folder("a"), file("x.png", 0, None), folder("b"), file("y.png", 0, None)],
        image_count: 2,
        dir_count: 2,
        zip_ctx: None,
    };
    let got: Vec<(usize, String)> = d.image_entries().into_iter().map(|(i, e)| (i, e.name.clone())).collect();
    assert_eq!(got, vec![(1, "x.png".to_string()), (3, "y.png".to_string())]);
}

#[test]
fn sorting_a_sorted_listing_again_changes_nothing() {
    let fields = [SortField::Name, SortField::Size, SortField::Date];
    for field in fields {
        for ascending in [true, false] {
            let mut d = DirState {
                entries: vec![
                    DirEntry { path: "/".to_string(), name: "..".to_string(), is_dir: true, size: 0, modified: None, zip_source: None },
                    folder("b"),
                    folder("A"),
                    folder("a"),
                    file("s.png", 5, Some(30)),
                    file("L.png", 300, None),
                    file("m.png", 5, Some(10)),
                    file("k.png", 20, Some(10)),
                ],
                image_count: 4,
                dir_count: 3,
                zip_ctx: None,
            };
            d.sort(field, ascending);
            let once = names(&d);
            d.sort(field, ascending);
            assert_eq!(names(&d), once);
        }
    }
}

#[test]
fn later_times_give_text_that_sorts_later() {
    let secs: [i128; 7] = [
        0,
        59,
        3_599,
        946_684_799,
        946_684_800,
        1_700_000_000,
        253_402_300_799,
    ];
    for i in 0..secs.len() {
        for j in i..secs.len() {
            let a = format_date(Some(secs[i] * 1_000_000_000));
            let b = format_date(Some(secs[j] * 1_000_000_000));
            assert!(a <= b, "{} > {}", a, b);
            assert_eq!(a.len(), b.len());
        }
    }
    assert_eq!(format_date(Some(946_684_799 * 1_000_000_000)), "1999-12-31 23:59");
    assert_eq!(format_date(Some(946_684_800 * 1_000_000_000)), "2000-01-01 00:00");
    assert_eq!(format_date(Some(253_402_300_799 * 1_000_000_000)), "9999-12-31 23:59");
}

#[test]
fn every_day_gets_a_real_date() {
    fn leap(y: u64) -> bool {
        y % 4 == 0 && (y % 100 != 0 || y % 400 == 0)
    }
    fn length(y: u64, m: u64) -> u64 {
        match m {
            2 => {
                if leap(y) {
                    29
                } else {
                    28
                }
            }
            4 | 6 | 9 | 11 => 30,
            _ => 31,
        }
    }
    let mut prev = civil_date(0);
    assert_eq!(prev, (1970, 1, 1));
    for days in 1..800_000u64 {
        let (y, m, d) = civil_date(days);
        assert!((1..=12).contains(&m));
        assert!(d >= 1 && d <= length(y, m), "{}-{}-{}", y, m, d);
        let (py, pm, pd) = prev;
        if d > 1 {
            assert_eq!((y, m, d - 1), (py, pm, pd));
        } else {
            assert_eq!(pd, length(py, pm));
        }
        prev = (y, m, d);
    }
    assert_eq!(civil_date(11_016), (2000, 2, 29));
}
