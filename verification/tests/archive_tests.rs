use std::io::{Cursor, Read};

use mod_resolver::archive::{
    detect_format, extract_action, extract_actions, ArchiveEntryMeta, ArchiveFormat,
    ExtractAction,
};
use sevenz_rust::{Password, SevenZArchiveEntry, SevenZReader, SevenZWriter};

#[test]
fn zip_extension_detected_case_insensitively() {
    assert_eq!(detect_format("a/b/file.zip"), Ok(ArchiveFormat::Zip));
    assert_eq!(detect_format("a/b/FILE.ZIP"), Ok(ArchiveFormat::Zip));
    assert_eq!(detect_format("a/b/file.Zip"), Ok(ArchiveFormat::Zip));
}

#[test]
fn rar_extension_detected_case_insensitively() {
    assert_eq!(detect_format("x.rar"), Ok(ArchiveFormat::Rar));
    assert_eq!(detect_format("x.RaR"), Ok(ArchiveFormat::Rar));
}

#[test]
fn sevenz_extension_detected_case_insensitively() {
    assert_eq!(detect_format("mods/pack.7z"), Ok(ArchiveFormat::SevenZ));
    assert_eq!(detect_format("mods/pack.7Z"), Ok(ArchiveFormat::SevenZ));
}

#[test]
fn other_extensions_are_unsupported() {
    assert!(detect_format("x.tar").is_err());
    assert!(detect_format("x.gz").is_err());
    assert!(detect_format("x.tar.gz").is_err());
    assert!(detect_format("noextension").is_err());
    assert!(detect_format("x.zipp").is_err());
}

#[test]
fn directory_entry_becomes_directory_creation() {
    let action = extract_action("/dest", "assets", true);
    match action {
        ExtractAction::MakeDir { path } => assert_eq!(path, "/dest/assets"),
        ExtractAction::WriteFile { .. } => panic!("expected a directory creation"),
    }
}

#[test]
fn file_entry_becomes_write_with_parent() {
    let action = extract_action("/dest", "assets/data.bin", false);
    match action {
        ExtractAction::WriteFile { path, parent_dir } => {
            assert_eq!(path, "/dest/assets/data.bin");
            assert_eq!(parent_dir, "/dest/assets");
        },
        ExtractAction::MakeDir { .. } => panic!("expected a file write"),
    }
}

fn build_archive(payload: &[u8]) -> Vec<u8> {
    let mut writer = SevenZWriter::new(Cursor::new(Vec::new())).expect("in-memory writer");
    let mut dir_entry = SevenZArchiveEntry::new();
    dir_entry.name = "assets".to_string();
    dir_entry.is_directory = true;
    writer
        .push_archive_entry::<&[u8]>(dir_entry, None)
        .expect("directory entry");
    let mut file_entry = SevenZArchiveEntry::new();
    file_entry.name = "assets/data.bin".to_string();
    writer
        .push_archive_entry(file_entry, Some(payload))
        .expect("file entry");
    writer.finish().expect("finish").into_inner()
}

/// A simulated filesystem: the downloaded archive, then whatever extraction
/// creates next to it.
struct Store {
    archive: Option<(String, Vec<u8>)>,
    dirs: Vec<String>,
    files: Vec<(String, Vec<u8>)>,
}

#[test]
fn sevenz_round_trip_recreates_directory_and_file_and_drops_archive() {
    let payload: &[u8] = b"round trip payload bytes";
    let archive_bytes = build_archive(payload);
    let archive_path = "/dest/pack.7z".to_string();
    let mut store = Store {
        archive: Some((archive_path.clone(), archive_bytes.clone())),
        dirs: Vec::new(),
        files: Vec::new(),
    };

    // Dispatch on the extension, as the extractor would before decoding.
    assert_eq!(detect_format(&archive_path), Ok(ArchiveFormat::SevenZ));

    // Decode the archive the caller just downloaded.
    let len = archive_bytes.len() as u64;
    let mut reader =
        SevenZReader::new(Cursor::new(archive_bytes), len, Password::empty()).expect("reader");
    let mut metas: Vec<ArchiveEntryMeta> = Vec::new();
    let mut contents: Vec<Vec<u8>> = Vec::new();
    reader
        .for_each_entries(|entry, entry_reader| {
            let mut data = Vec::new();
            entry_reader.read_to_end(&mut data)?;
            metas.push(ArchiveEntryMeta {
                name: entry.name().to_string(),
                is_directory: entry.is_directory(),
            });
            contents.push(data);
            Ok(true)
        })
        .expect("walk entries");

    // Let the library place every entry, and carry its decisions out.
    let actions = extract_actions("/dest", &metas);
    assert_eq!(actions.len(), metas.len());
    for (k, action) in actions.iter().enumerate() {
        match action {
            ExtractAction::MakeDir { path } => store.dirs.push(path.clone()),
            ExtractAction::WriteFile { path, parent_dir } => {
                if !store.dirs.contains(parent_dir) {
                    store.dirs.push(parent_dir.clone());
                }
                store.files.push((path.clone(), contents[k].clone()));
            },
        }
    }

    // After successful extraction the original archive file is deleted.
    store.archive = None;

    assert!(store.dirs.contains(&"/dest/assets".to_string()));
    let written = store
        .files
        .iter()
        .find(|(p, _)| p == "/dest/assets/data.bin")
        .expect("extracted file");
    assert_eq!(written.1, payload);
    assert!(store.archive.is_none());
}
