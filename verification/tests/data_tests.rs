//! Tests for the size type, its display rendering, and path names.

use cargo_wash::data::{Language, Project, Size, SizeUnit, WashError};
use cargo_wash::extensions::PathBufExt;
use cargo_wash::text::u64_to_string;
use cargo_wash::utility::sanitize_path_input;

#[test]
fn test_size_in_bytes() {
    let size_b = Size::new(500, SizeUnit::B);
    assert_eq!(size_b.size_in_bytes(), 500);

    let size_kb = Size::new(1024, SizeUnit::KB);
    assert_eq!(size_kb.size_in_bytes(), 1024);

    let size_mb = Size::new(1024 * 1024, SizeUnit::MB);
    assert_eq!(size_mb.size_in_bytes(), 1024 * 1024);

    let size_gb = Size::new(1024 * 1024 * 1024, SizeUnit::GB);
    assert_eq!(size_gb.size_in_bytes(), 1024 * 1024 * 1024);
}

#[test]
fn test_to_size() {
    let size = Size::to_size(500);
    assert_eq!(size.unit, SizeUnit::B);
    assert_eq!(size.size_in_bytes(), 500);

    let size = Size::to_size(1024);
    assert_eq!(size.unit, SizeUnit::KB);
    assert_eq!(size.size_in_bytes(), 1024);

    let size = Size::to_size(1024 * 1024);
    assert_eq!(size.unit, SizeUnit::MB);
    assert_eq!(size.size_in_bytes(), 1024 * 1024);

    let size = Size::to_size(1024 * 1024 * 1024);
    assert_eq!(size.unit, SizeUnit::GB);
    assert_eq!(size.size_in_bytes(), 1024 * 1024 * 1024);
}

#[test]
fn to_size_of_zero_is_zero_bytes() {
    let size = Size::to_size(0);
    assert_eq!(size.unit, SizeUnit::B);
    assert_eq!(size.size_in_bytes(), 0);
    assert_eq!(size.to_display_string(), "0.00 B");
}

#[test]
fn test_display() {
    let bytes = (1.2345_f64 * 1048576.0) as u64;
    let size = Size::new(bytes, SizeUnit::MB);
    assert_eq!(size.to_display_string(), "1.23 MB");

    let size = Size::new(2048, SizeUnit::B);
    assert_eq!(size.to_display_string(), "2048.00 B");
}

#[test]
fn display_normalized_sizes() {
    assert_eq!(Size::to_size(1024).to_display_string(), "1.00 KB");
    assert_eq!(Size::to_size(1536).to_display_string(), "1.50 KB");
    assert_eq!(Size::to_size(500).to_display_string(), "500.00 B");
    // 1048575 bytes is 1023.999 KB: rounding to hundredths carries over.
    assert_eq!(Size::to_size(1024 * 1024 - 1).to_display_string(), "1024.00 KB");
}

#[test]
fn test_round_trip_conversion() {
    let bytes = (1.5_f64 * 1048576.0) as u64;
    let original = Size::new(bytes, SizeUnit::MB);
    let round_tripped = original.size_in_bytes();
    let converted = Size::to_size(round_tripped);

    assert_eq!(converted.unit, SizeUnit::MB);
    let value = converted.size_in_bytes() as f64 / 1048576.0;
    assert!((value - 1.5).abs() < 0.01);
}

#[test]
fn round_trip_is_exact_for_every_byte_count() {
    for &b in &[0u64, 1, 500, 1023, 1024, 1025, 1100, 1048575, 1048576, 123456789, u64::MAX] {
        assert_eq!(Size::to_size(b).size_in_bytes(), b);
    }
}

#[test]
fn test_pathbufext_get_name() {
    let file_path = String::from("foo.txt");
    let name = file_path.get_name().unwrap();
    assert_eq!(name, "foo.txt");

    let dir_path = String::from("bar");
    let name = dir_path.get_name().unwrap();
    assert_eq!(name, "bar");

    let nested_path = String::from("foo/bar/baz");
    let name = nested_path.get_name().unwrap();
    assert_eq!(name, "baz");

    let empty_path = String::new();
    let result = empty_path.get_name();
    result.unwrap_err();
}

#[test]
fn get_name_ignores_trailing_slashes_and_rejects_dots() {
    assert_eq!(String::from("a/b/").get_name().unwrap(), "b");
    assert_eq!(String::from("/").get_name().unwrap_err(), WashError::NameError);
    assert_eq!(String::from("..").get_name().unwrap_err(), WashError::NameError);
    assert_eq!(String::from(".").get_name().unwrap_err(), WashError::NameError);
}

#[test]
fn test_clean_path() {
    let cwd = "/home/user/work";
    assert_eq!(sanitize_path_input("/", cwd).unwrap(), cwd);
    assert_eq!(sanitize_path_input(".", cwd).unwrap(), cwd);
    assert_eq!(sanitize_path_input("..", cwd).unwrap(), "/home/user");
    assert_eq!(sanitize_path_input("test", cwd).unwrap(), "test");
}

#[test]
fn sanitize_parent_of_root_fails() {
    let err = sanitize_path_input("..", "/").unwrap_err();
    assert_eq!(err, WashError::NoParentDirectory);
    assert_eq!(err.message(), "Failed to get parent directory");
    assert_eq!(sanitize_path_input("..", "/home").unwrap(), "/");
}

#[test]
fn error_messages() {
    assert_eq!(
        WashError::NotADirectory.message(),
        "The provided path is not a directory."
    );
    assert_eq!(WashError::NameError.message(), "Could not find filename for path");
    assert_eq!(
        WashError::SomeFailed { failed: 3 }.message(),
        "Some projects (3) failed"
    );
}

#[test]
fn renders_decimals() {
    assert_eq!(u64_to_string(0), "0");
    assert_eq!(u64_to_string(7), "7");
    assert_eq!(u64_to_string(1024), "1024");
    assert_eq!(u64_to_string(18446744073709551615), "18446744073709551615");
}

#[test]
fn project_new_normalizes_size() {
    let p = Project::new("foo", "/tmp/foo", 2048, Language::Rust);
    assert_eq!(p.name, "foo");
    assert_eq!(p.path, "/tmp/foo");
    assert_eq!(p.size.unit, SizeUnit::KB);
    assert_eq!(p.size.size_in_bytes(), 2048);
    assert_eq!(p.language, Language::Rust);
}
