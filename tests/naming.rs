use uploader::config::UploadConfig;
use uploader::naming::{new_identifier, stored_filename};

const ID: u128 = 0x0123_4567_89ab_cdef_fedc_ba98_7654_3210;
const PREFIX: &str = "01234567-89ab-cdef-fedc-ba9876543210";

#[test]
fn uppercase_extension_is_kept() {
    let name = stored_filename("photo.JPG", ID);
    assert_eq!(name, format!("{}.JPG", PREFIX));
    assert!(name.ends_with(".JPG"));
}

#[test]
fn name_without_dot_gets_unknown() {
    assert_eq!(stored_filename("README", ID), format!("{}.unknown", PREFIX));
}

#[test]
fn empty_name_gets_unknown() {
    assert_eq!(stored_filename("", ID), format!("{}.unknown", PREFIX));
}

#[test]
fn last_dot_decides_extension() {
    assert_eq!(stored_filename("archive.tar.gz", ID), format!("{}.gz", PREFIX));
}

#[test]
fn leading_dot_only_gets_unknown() {
    assert_eq!(stored_filename(".bashrc", ID), format!("{}.unknown", PREFIX));
    assert_eq!(stored_filename("..", ID), format!("{}.unknown", PREFIX));
}

#[test]
fn trailing_dot_gives_empty_extension() {
    assert_eq!(stored_filename("notes.", ID), format!("{}.", PREFIX));
}

#[test]
fn directories_in_original_name_are_not_kept() {
    assert_eq!(stored_filename("../../etc/cat.png", ID), format!("{}.png", PREFIX));
    assert_eq!(stored_filename("dir.v2/file", ID), format!("{}.unknown", PREFIX));
}

#[test]
fn identifier_renders_hyphenated_lowercase() {
    assert_eq!(
        stored_filename("a.txt", 0xFFFF_FFFF_0000_0000_A0B0_C0D0_E0F0_0102),
        "ffffffff-0000-0000-a0b0-c0d0e0f00102.txt"
    );
    assert_eq!(stored_filename("a.txt", 0), "00000000-0000-0000-0000-000000000000.txt");
}

#[test]
fn new_identifier_is_version_four() {
    let id = new_identifier();
    assert_eq!((id >> 76) & 0xf, 4);
    assert_eq!((id >> 62) & 3, 2);
}

#[test]
fn fresh_identifiers_differ() {
    let a = new_identifier();
    let b = new_identifier();
    assert_ne!(a, b);
    assert_ne!(stored_filename("same.png", a), stored_filename("same.png", b));
}

#[test]
fn default_config_uses_uploads() {
    assert_eq!(UploadConfig::with_default_dir().upload_dir, "uploads");
    assert_eq!(UploadConfig::new("/tmp/x".to_string()).upload_dir, "/tmp/x");
}
