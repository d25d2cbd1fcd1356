use std::io::{Cursor, Read, Write};

use codeg::error::{AppCommandError, AppErrorCode};
use codeg::workspace::archive::{
    archive_finished, archive_measured, block_written, build_zip_archive_to_writer,
    directory_added, entry_found, entry_measured, entry_name, entry_started, source_opened,
    source_read, ArchiveEntry, ArchiveScan, ArchiveStep, EntryKind,
};

/// An entry of a tree: its path, its kind and the bytes of a file.
type Node = (Option<&'static str>, EntryKind, &'static str);

/// Packs a tree into memory and returns the archive and the number of symlinks left out.
fn pack(max_bytes: u64, tree: &[Node]) -> Result<(Vec<u8>, u64), AppCommandError> {
    let mut writer = zip::ZipWriter::new(Cursor::new(Vec::new()));
    let base = zip::write::SimpleFileOptions::default()
        .compression_method(zip::CompressionMethod::Deflated);
    let mut rest = tree.iter();
    let mut body: &[u8] = b"";
    let mut step: ArchiveStep<&'static str> = build_zip_archive_to_writer(max_bytes);
    loop {
        step = match step {
            ArchiveStep::NextEntry(scan) => match rest.next() {
                None => entry_found(scan, Ok(None)),
                Some((rel, kind, bytes)) => {
                    let entry =
                        ArchiveEntry { entry: *bytes, rel: rel.map(|r| r.to_string()), kind: *kind };
                    entry_found(scan, Ok(Some(entry)))
                }
            },
            ArchiveStep::AddDirectory(scan, name, mode) => {
                let r = writer.add_directory(name, base.unix_permissions(mode));
                directory_added(scan, r.map_err(|e| e.to_string()))
            }
            ArchiveStep::Measure(scan, entry, name) => {
                entry_measured(scan, entry, name, Ok(entry.len() as u64))
            }
            ArchiveStep::StartFile(scan, entry, name, mode) => {
                let r = writer.start_file(name, base.unix_permissions(mode));
                entry_started(scan, entry, r.map_err(|e| e.to_string()))
            }
            ArchiveStep::OpenSource(scan, entry) => {
                body = entry.as_bytes();
                source_opened(scan, entry, Ok(()))
            }
            ArchiveStep::ReadSource(scan, entry) => {
                let mut block = vec![0u8; 3];
                let n = body.read(&mut block).unwrap();
                block.truncate(n);
                source_read(scan, entry, Ok(block))
            }
            ArchiveStep::WriteBlock(scan, entry, block) => {
                let r = writer.write_all(&block);
                block_written(scan, entry, r.map_err(|e| e.to_string()))
            }
            ArchiveStep::Finish(scan) => {
                let bytes = writer.finish().unwrap().into_inner();
                let size = bytes.len() as u64;
                let links = match archive_finished::<()>(scan, Ok(())) {
                    ArchiveStep::MeasureArchive(scan) => match archive_measured::<()>(scan, Ok(size)) {
                        ArchiveStep::Done(scan, n) => {
                            assert_eq!(n, size);
                            scan.links_skipped
                        }
                        _ => panic!("the archive is done"),
                    },
                    _ => panic!("the archive is measured"),
                };
                return Ok((bytes, links));
            }
            ArchiveStep::MeasureArchive(_) | ArchiveStep::Done(_, _) => panic!("finishes first"),
            ArchiveStep::Fail(e) => return Err(e),
        };
    }
}

const TREE: [Node; 7] = [
    (Some(""), EntryKind::Directory, ""),
    (Some("src"), EntryKind::Directory, ""),
    (Some("src\\main.rs"), EntryKind::File, "fn main() {}"),
    (Some("link"), EntryKind::Link, "not packed"),
    (None, EntryKind::File, "elsewhere"),
    (Some("pipe"), EntryKind::Other, "not packed"),
    (Some("empty"), EntryKind::File, ""),
];

#[test]
fn a_tree_is_packed_without_its_symlinks() {
    let (bytes, links) = pack(12, &TREE).unwrap();
    assert_eq!(links, 1);
    let mut archive = zip::ZipArchive::new(Cursor::new(bytes)).unwrap();
    let mut found = Vec::new();
    for i in 0..archive.len() {
        let mut entry = archive.by_index(i).unwrap();
        let mut text = String::new();
        entry.read_to_string(&mut text).unwrap();
        found.push((entry.name().to_string(), entry.is_dir(), entry.unix_mode().unwrap() & 0o777, text));
    }
    assert_eq!(
        found,
        vec![
            ("src/".to_string(), true, 0o755, String::new()),
            ("src/main.rs".to_string(), false, 0o644, "fn main() {}".to_string()),
            ("empty".to_string(), false, 0o644, String::new()),
        ]
    );
}

#[test]
fn a_tree_over_the_limit_is_refused() {
    let e = pack(11, &TREE).unwrap_err();
    assert_eq!(e.code, AppErrorCode::InvalidInput);
    assert_eq!(e.message, "Directory exceeds the maximum download size");
    assert_eq!(e.detail.as_deref(), Some("scanned=12 limit=11"));
    let two = [(Some("a"), EntryKind::File, "123"), (Some("b"), EntryKind::File, "456")];
    assert_eq!(pack(5, &two).unwrap_err().detail.as_deref(), Some("scanned=6 limit=5"));
    assert!(pack(6, &two).is_ok());
}

#[test]
fn names_use_forward_slashes() {
    assert_eq!(entry_name("a\\b/c"), "a/b/c");
    assert_eq!(entry_name("plain ü"), "plain ü");
    assert_eq!(entry_name(""), "");
}

fn archive_error(step: ArchiveStep<u8>) -> (AppErrorCode, String, Option<String>) {
    match step {
        ArchiveStep::Fail(e) => (e.code, e.message, e.detail),
        _ => panic!("fails"),
    }
}

fn because<T>() -> Result<T, String> {
    Err("why".to_string())
}

#[test]
fn failures_of_an_archive_carry_their_reasons() {
    let scan = ArchiveScan { max_bytes: 9, total: 4, links_skipped: 0 };
    let io = |m: &str| (AppErrorCode::IoError, m.to_string(), Some("why".to_string()));
    let os = (AppErrorCode::Os, "why".to_string(), None);
    assert_eq!(archive_error(entry_found(scan, because())), io("Failed to walk directory"));
    assert_eq!(archive_error(directory_added(scan, because())), io("Failed to add dir to zip"));
    assert_eq!(archive_error(entry_measured(scan, 7, "a".to_string(), because())), io("Failed to stat entry"));
    assert_eq!(archive_error(entry_started(scan, 7, because())), io("Failed to start zip entry"));
    assert_eq!(archive_error(source_opened(scan, 7, because())), os);
    assert_eq!(archive_error(source_read(scan, 7, because())), os);
    assert_eq!(archive_error(block_written(scan, 7, because())), io("Failed to write zip entry"));
    assert_eq!(archive_error(archive_finished(scan, because())), io("Failed to finalize zip"));
    assert_eq!(archive_error(archive_measured(scan, because())), io("Failed to measure zip size"));
    match entry_measured(scan, 7u8, "a".to_string(), Ok(5)) {
        ArchiveStep::StartFile(s, entry, name, mode) => {
            assert_eq!((s.total, entry, name.as_str(), mode), (9, 7, "a", 0o644));
        }
        _ => panic!("the file fits"),
    }
}

#[test]
fn symlinks_are_counted_up_to_the_largest_number() {
    let scan = ArchiveScan { max_bytes: 9, total: 4, links_skipped: u64::MAX };
    let link = ArchiveEntry { entry: (), rel: Some("l".to_string()), kind: EntryKind::Link };
    match entry_found(scan, Ok(Some(link))) {
        ArchiveStep::NextEntry(s) => assert_eq!(s, scan),
        _ => panic!("a link is passed over"),
    }
}
