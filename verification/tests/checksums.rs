use clipdate::checksum::{
    check_digest, digest, find_checksum_asset, find_listed, is_checksum_name, verify_checksum,
};
use clipdate::error::UpdateError;
use clipdate::release::GhAsset;

const HELLO: &str = "2cf24dba5fb0a30e26e83b2ac5b9e29e1b161e5c1fa7425e73043362938b9824";

fn asset(name: &str) -> GhAsset {
    GhAsset { name: name.to_string(), browser_download_url: format!("https://x/{}", name) }
}

#[test]
fn the_digest_is_sha256_in_lower_case() {
    assert_eq!(digest(b"hello"), HELLO);
    assert_eq!(digest(b""), "e3b0c44298fc1c149afbf4c8996fb92427ae41e4649b934ca495991b7852b855");
}

#[test]
fn checksum_files_are_known_by_name() {
    for name in [
        "tool.zip.sha256",
        "tool.zip.sha256sum",
        "checksums.txt",
        "sha256sums.txt",
        "sha256sums",
        "tool_1.0.0_checksums.txt",
        "other.zip.sha256",
    ] {
        assert!(is_checksum_name(name, "tool.zip"), "{}", name);
    }
    for name in ["tool.zip", "checksums.txt.sig", "checksums.txt.asc", "x.sha256.pem", "sha1sums", ""] {
        assert!(!is_checksum_name(name, "tool.zip"), "{}", name);
    }
}

#[test]
fn the_first_checksum_file_counts() {
    let assets = vec![
        asset("tool.zip"),
        asset("Checksums.txt.sig"),
        asset("Checksums.TXT"),
        asset("tool.zip.sha256"),
    ];
    assert_eq!(find_checksum_asset(&assets, "tool.zip"), Some(2));
    assert_eq!(find_checksum_asset(&assets[..2].to_vec(), "tool.zip"), None);
    let own = vec![asset("TOOL.ZIP.SHA256")];
    assert_eq!(find_checksum_asset(&own, "Tool.zip"), Some(0));
}

#[test]
fn the_first_line_with_the_name_counts() {
    let file = "aaa  other.zip\n\nbbb  tool.zip\nccc  tool.zip\n";
    assert_eq!(find_listed(file, "tool.zip"), Some("bbb".to_string()));
    assert_eq!(find_listed(file, "none.zip"), None);
    assert_eq!(find_listed("  ddd *tool.zip\r\n", "tool.zip"), Some("ddd".to_string()));
    // An empty line lists nothing, even for an empty name.
    assert_eq!(find_listed("\n \nx", ""), Some("x".to_string()));
    assert_eq!(find_listed("", ""), None);
}

#[test]
fn a_listed_digest_is_held_against_the_asset() {
    let good = format!("{}  tool.zip\n", HELLO);
    assert!(verify_checksum("tool.zip", b"hello", good.as_bytes()).is_ok());
    let upper = format!("{}  tool.zip\n", HELLO.to_uppercase());
    assert!(verify_checksum("tool.zip", b"hello", upper.as_bytes()).is_ok());
    assert!(verify_checksum("tool.zip", b"hello", b"0000  else.zip\n").is_ok());
    assert!(verify_checksum("tool.zip", b"hello", b"").is_ok());
    match verify_checksum("tool.zip", b"hallo", good.as_bytes()) {
        Err(UpdateError::ChecksumMismatch { asset, expected, actual }) => {
            assert_eq!(asset, "tool.zip");
            assert_eq!(expected, HELLO);
            assert_eq!(actual, digest(b"hallo"));
        },
        other => panic!("{:?}", other),
    }
    // Parts that are not text do not hide the others.
    let mut odd = b"\xff\xfe\n".to_vec();
    odd.extend_from_slice(good.as_bytes());
    assert!(verify_checksum("tool.zip", b"hello", &odd).is_ok());
    assert!(verify_checksum("tool.zip", b"hallo", &odd).is_err());
}

#[test]
fn a_mismatch_is_told() {
    let e = check_digest("t", Some("a".to_string()), "b".to_string()).unwrap_err();
    assert_eq!(e.layers(), vec!["checksum mismatch for t: expected a, got b".to_string()]);
    assert!(check_digest("t", Some("a".to_string()), "a".to_string()).is_ok());
    assert!(check_digest("t", None, "a".to_string()).is_ok());
}
