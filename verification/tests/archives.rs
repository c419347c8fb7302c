use std::io::Write;

use clipdate::archive::{
    extract_entry, extract_tar_gz, find_in_tar, find_in_zip, is_wanted_in_tar, is_wanted_in_zip,
    Content,
};
use clipdate::error::ExtractError;

fn zip_of(files: &[(&str, &[u8])]) -> Vec<u8> {
    let mut writer = zip::ZipWriter::new(std::io::Cursor::new(Vec::new()));
    let options = zip::write::SimpleFileOptions::default()
        .compression_method(zip::CompressionMethod::Stored);
    for (name, content) in files {
        writer.start_file(*name, options).unwrap();
        writer.write_all(content).unwrap();
    }
    writer.finish().unwrap().into_inner()
}

fn tar_of(files: &[(&str, &[u8])]) -> Vec<u8> {
    let mut builder = tar::Builder::new(Vec::new());
    for (name, content) in files {
        let mut header = tar::Header::new_gnu();
        header.set_size(content.len() as u64);
        header.set_mode(0o644);
        builder.append_data(&mut header, *name, *content).unwrap();
    }
    builder.into_inner().unwrap()
}

fn gzip(bytes: &[u8]) -> Vec<u8> {
    let mut encoder = flate2::write::GzEncoder::new(Vec::new(), flate2::Compression::default());
    encoder.write_all(bytes).unwrap();
    encoder.finish().unwrap()
}

fn whole(r: Result<Content, ExtractError>) -> Vec<u8> {
    match r {
        Ok(Content::Whole(bytes)) => bytes,
        other => panic!("{:?}", other),
    }
}

#[test]
fn an_entry_is_taken_out_of_a_zip() {
    let bytes = zip_of(&[("README.md", b"read"), ("dist/Koyeb.exe", b"run"), ("koyeb.exe", b"late")]);
    assert_eq!(whole(extract_entry(&bytes, "koyeb.exe")), b"run".to_vec());
    assert_eq!(whole(extract_entry(&bytes, "DIST/KOYEB.EXE")), b"run".to_vec());
    assert_eq!(whole(extract_entry(&bytes, "readme.md")), b"read".to_vec());
}

#[test]
fn a_deflated_entry_is_unpacked() {
    let mut writer = zip::ZipWriter::new(std::io::Cursor::new(Vec::new()));
    let options = zip::write::SimpleFileOptions::default()
        .compression_method(zip::CompressionMethod::Deflated);
    writer.start_file("a/tool", options).unwrap();
    writer.write_all(&[7u8; 5000]).unwrap();
    let bytes = writer.finish().unwrap().into_inner();
    assert!(bytes.len() < 5000);
    assert_eq!(whole(extract_entry(&bytes, "tool")), vec![7u8; 5000]);
}

#[test]
fn a_missing_zip_entry_is_told() {
    let bytes = zip_of(&[("a", b"1")]);
    let e = extract_entry(&bytes, "b").unwrap_err();
    assert!(matches!(e, ExtractError::NotInZip { .. }));
    assert_eq!(e.layers(), vec!["'b' not found in zip".to_string()]);
}

#[test]
fn bytes_that_are_no_zip_are_refused() {
    let e = extract_entry(b"not an archive", "a").unwrap_err();
    assert!(matches!(e, ExtractError::OpenZip { .. }));
    assert_eq!(e.layers()[0], "opening zip");
    assert!(e.layers()[1].contains("invalid Zip archive"), "{:?}", e);
}

#[test]
fn a_damaged_zip_entry_is_told() {
    let mut bytes = zip_of(&[("tool", b"0123456789abcdef")]);
    let at = bytes.windows(16).position(|w| w == b"0123456789abcdef").unwrap();
    bytes[at] = b'X';
    // All of the content is there, but its checksum is wrong.
    match extract_entry(&bytes, "tool") {
        Ok(Content::Damaged { read, cause }) => {
            assert_eq!(read, b"X123456789abcdef".to_vec());
            assert_eq!(cause, "Invalid checksum");
        },
        other => panic!("{:?}", other),
    }
}

#[test]
fn an_encrypted_zip_entry_cannot_be_opened() {
    let mut bytes = zip_of(&[("tool", b"0123456789abcdef")]);
    // The flag for encryption, in the local header and in the directory.
    bytes[6] |= 1;
    let at = bytes.windows(4).position(|w| w == b"PK\x01\x02").unwrap();
    bytes[at + 8] |= 1;
    let e = extract_entry(&bytes, "tool").unwrap_err();
    assert!(matches!(e, ExtractError::ReadZipEntry { .. }), "{:?}", e);
    assert_eq!(e.layers()[0], "reading zip entry");
    assert!(e.layers()[1].contains("Password"), "{:?}", e);
}

#[test]
fn an_entry_is_taken_out_of_a_tar_gz() {
    let bytes = gzip(&tar_of(&[("LICENSE", b"mit"), ("koyeb_1/bin/Koyeb", b"run"), ("koyeb", b"late")]));
    assert_eq!(whole(extract_tar_gz(&bytes, "koyeb", false)), b"run".to_vec());
    assert_eq!(whole(extract_tar_gz(&bytes, "koyeb_1/bin/koyeb", false)), b"run".to_vec());
    assert_eq!(whole(extract_tar_gz(&bytes, "license", true)), b"mit".to_vec());
}

#[test]
fn a_missing_tar_entry_is_told() {
    let bytes = gzip(&tar_of(&[("a", b"1")]));
    let e = extract_tar_gz(&bytes, "b", false).unwrap_err();
    assert!(matches!(e, ExtractError::NotInTarGz { .. }));
    assert_eq!(e.layers(), vec!["'b' not found in tar.gz".to_string()]);
}

#[test]
fn a_damaged_tar_is_told() {
    let e = extract_tar_gz(b"not an archive", "a", false).unwrap_err();
    assert!(matches!(e, ExtractError::ReadTarEntry { .. }), "{:?}", e);
    assert_eq!(
        e.layers(),
        vec![
            "reading tar entry".to_string(),
            "invalid gzip header".to_string(),
        ]
    );
    // Damage behind the wanted entry is not come upon.
    let mut tar = tar_of(&[("a", b"1"), ("b", b"2")]);
    tar[1024] ^= 0x55;
    let bytes = gzip(&tar);
    assert_eq!(whole(extract_tar_gz(&bytes, "a", false)), b"1".to_vec());
    assert!(matches!(
        extract_tar_gz(&bytes, "b", false),
        Err(ExtractError::ReadTarEntry { .. })
    ));
}

#[test]
fn a_tar_gz_that_breaks_off_is_damaged() {
    let mut seed: u32 = 1;
    let content: Vec<u8> = (0..20000)
        .map(|_| {
            seed = seed.wrapping_mul(1664525).wrapping_add(1013904223);
            (seed >> 24) as u8
        })
        .collect();
    let bytes = gzip(&tar_of(&[("tool", &content)]));
    assert_eq!(whole(extract_tar_gz(&bytes, "tool", false)), content);
    let half = &bytes[..bytes.len() / 2];
    match extract_tar_gz(half, "tool", false) {
        Ok(Content::Damaged { read, cause }) => {
            assert!(!read.is_empty() && content.starts_with(&read));
            assert_eq!(cause, "incomplete deflate stream");
        },
        other => panic!("{:?}", other),
    }
}

#[test]
fn windows_takes_only_unicode_paths() {
    let mut tar = tar_of(&[("abc", b"1"), ("tool", b"2")]);
    tar[1] = 0xff;
    let sum: u32 = (0..512).map(|i| if (148..156).contains(&i) { 32 } else { tar[i] as u32 }).sum();
    let text = format!("{:06o}\0 ", sum);
    tar[148..156].copy_from_slice(text.as_bytes());
    let bytes = gzip(&tar);
    assert_eq!(whole(extract_tar_gz(&bytes, "tool", false)), b"2".to_vec());
    assert_eq!(whole(extract_tar_gz(&bytes, "a\u{fffd}c", false)), b"1".to_vec());
    let e = extract_tar_gz(&bytes, "tool", true).unwrap_err();
    assert!(matches!(e, ExtractError::ReadTarEntryPath { .. }));
    assert_eq!(
        e.layers(),
        vec![
            "reading tar entry path".to_string(),
            "only Unicode paths are supported on Windows: a\u{fffd}c".to_string(),
        ]
    );
}

#[test]
fn names_match_in_any_folder_and_case() {
    for name in ["tool", "TOOL", "a/tool", "a\\b\\Tool", "a/b\\tool"] {
        assert!(is_wanted_in_zip(name, "tool"), "{}", name);
        assert!(is_wanted_in_tar(name, "tool"), "{}", name);
    }
    for name in ["tool/", "tool.exe", "mytool", "tool/x", ""] {
        assert!(!is_wanted_in_zip(name, "tool"), "{}", name);
        assert!(!is_wanted_in_tar(name, "tool"), "{}", name);
    }
    assert!(is_wanted_in_zip("a/tool", "A/tool"));
    assert!(is_wanted_in_tar("a\\tool", "a/tool"));
    // The whole path of a zip entry is compared as it stands.
    assert!(is_wanted_in_zip("a\\tool", "a\\tool"));
    assert!(!is_wanted_in_zip("a\\tool", "a/tool"));
    assert!(!is_wanted_in_tar("a\\tool", "a\\tool"));
}

#[test]
fn the_first_match_in_a_zip_counts() {
    let names = vec![None, Some("x".to_string()), Some("a/b".to_string()), Some("b".to_string())];
    assert_eq!(find_in_zip(&names, "b"), Some(2));
    assert_eq!(find_in_zip(&names, "c"), None);
    assert_eq!(find_in_zip(&vec![], "c"), None);
}

#[test]
fn the_search_through_a_tar_stops_at_damage() {
    let broken = || Err("broken".to_string());
    let paths = vec![Ok(b"x".to_vec()), Ok(b"d/tool".to_vec()), broken()];
    assert_eq!(find_in_tar(paths, "tool", false).unwrap(), 1);
    let paths = vec![Ok(b"x".to_vec()), broken(), Ok(b"tool".to_vec())];
    match find_in_tar(paths, "tool", false) {
        Err(ExtractError::ReadTarEntry { cause }) => assert_eq!(cause, "broken"),
        other => panic!("{:?}", other),
    }
    let paths = vec![Ok(b"\xff".to_vec()), Ok(b"tool".to_vec())];
    assert!(matches!(
        find_in_tar(paths, "tool", true),
        Err(ExtractError::ReadTarEntryPath { .. })
    ));
    assert!(matches!(
        find_in_tar(vec![], "tool", true),
        Err(ExtractError::NotInTarGz { .. })
    ));
}
