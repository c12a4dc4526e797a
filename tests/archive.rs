use std::io::{Cursor, Write};

use desktopmate_installer::archive::{extraction_plan, open_archive};
use desktopmate_installer::installer::{payload_root, ErrorKind, TopEntry};
use zip::write::SimpleFileOptions;
use zip::ZipWriter;

fn build(entries: &[(&str, Option<&[u8]>)]) -> Vec<u8> {
    let mut w = ZipWriter::new(Cursor::new(Vec::new()));
    let opts = SimpleFileOptions::default();
    for (name, data) in entries {
        match data {
            Some(bytes) => {
                w.start_file(*name, opts).unwrap();
                w.write_all(bytes).unwrap();
            },
            None => {
                w.add_directory(*name, opts).unwrap();
            },
        }
    }
    w.finish().unwrap().into_inner()
}

#[test]
fn plan_recreates_entries_in_order() {
    let bytes = build(&[("pkg/", None), ("pkg/Mods/x.dll", Some(b"dll-bytes")), ("pkg/UserLibs/", None)]);
    let mut a = open_archive(bytes).unwrap();
    let plan = extraction_plan(&mut a).unwrap();
    assert_eq!(plan.len(), 3);
    assert!(plan[0].is_dir);
    assert_eq!(plan[0].path, vec!["pkg".to_string()]);
    assert!(!plan[1].is_dir);
    assert_eq!(plan[1].path, vec!["pkg".to_string(), "Mods".to_string(), "x.dll".to_string()]);
    assert_eq!(plan[1].data, b"dll-bytes".to_vec());
    assert!(plan[2].is_dir);
    assert!(plan[2].data.is_empty());
}

#[test]
fn traversal_components_are_dropped() {
    let bytes = build(&[("../evil.txt", Some(b"e")), ("a/./../b.txt", Some(b"b"))]);
    let mut a = open_archive(bytes).unwrap();
    let plan = extraction_plan(&mut a).unwrap();
    assert_eq!(plan[0].path, vec!["evil.txt".to_string()]);
    assert_eq!(plan[1].path, vec!["a".to_string(), "b.txt".to_string()]);
    for e in &plan {
        for c in &e.path {
            assert!(c != ".." && c != "." && !c.is_empty() && !c.contains('/'));
        }
    }
}

#[test]
fn empty_archive_plans_nothing() {
    let bytes = build(&[]);
    let mut a = open_archive(bytes).unwrap();
    assert!(extraction_plan(&mut a).unwrap().is_empty());
}

#[test]
fn unreadable_archive_is_a_decode_error() {
    assert_eq!(open_archive(b"not a zip".to_vec()).err(), Some(ErrorKind::Decode));
}

#[test]
fn single_top_directory_becomes_payload_root() {
    let bytes = build(&[("root/", None), ("root/Mods/", None), ("root/Mods/a.dll", Some(b"a"))]);
    let mut a = open_archive(bytes).unwrap();
    let plan = extraction_plan(&mut a).unwrap();
    let mut top: Vec<TopEntry> = Vec::new();
    for e in &plan {
        if e.path.len() == 1 {
            top.push(TopEntry { name: e.path[0].clone(), is_dir: e.is_dir });
        }
    }
    let root = payload_root(&top).unwrap();
    assert_eq!(root, "root");
    let file = plan.iter().find(|e| !e.is_dir).unwrap();
    assert_eq!(&file.path[1..], &["Mods".to_string(), "a.dll".to_string()]);
}

#[test]
fn drive_like_component_is_refused() {
    let bytes = build(&[("ok.txt", Some(b"k")), ("a/C:b", Some(b"x"))]);
    let mut a = open_archive(bytes).unwrap();
    assert_eq!(extraction_plan(&mut a).err(), Some(ErrorKind::UnsafePath));
}

#[test]
fn corrupted_entry_is_a_decode_error() {
    let mut w = ZipWriter::new(Cursor::new(Vec::new()));
    let opts = SimpleFileOptions::default().compression_method(zip::CompressionMethod::Stored);
    w.start_file("f.txt", opts).unwrap();
    w.write_all(b"payload-payload").unwrap();
    let mut bytes = w.finish().unwrap().into_inner();
    let at = bytes.windows(15).position(|s| s == b"payload-payload").unwrap();
    bytes[at] = b'X';
    let mut a = open_archive(bytes).unwrap();
    assert_eq!(extraction_plan(&mut a).err(), Some(ErrorKind::Decode));
}
