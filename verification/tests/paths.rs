use filedrop::paths::check_contained;
use filedrop::paths::check_pure_filename;
use filedrop::paths::join_path;
use filedrop::paths::resolve_in_root;
use filedrop::text::replace_b_unit;
use filedrop::text::trim;

#[test]
fn pure_filenames_accepted() {
    assert!(check_pure_filename("f.txt"));
    assert!(check_pure_filename("archive.tar.gz"));
    assert!(check_pure_filename("..."));
    assert!(check_pure_filename(".hidden"));
}

#[test]
fn impure_filenames_rejected() {
    assert!(!check_pure_filename(""));
    assert!(!check_pure_filename("."));
    assert!(!check_pure_filename(".."));
    assert!(!check_pure_filename("a/b.txt"));
    assert!(!check_pure_filename("/etc/passwd"));
    assert!(!check_pure_filename("dir/"));
    assert!(!check_pure_filename("../up.txt"));
}

#[test]
fn join_inserts_separator() {
    assert_eq!(join_path("/data", "sub").as_str(), "/data/sub");
    assert_eq!(join_path("/data/", "sub").as_str(), "/data/sub");
    assert_eq!(join_path("/data", "").as_str(), "/data/");
    assert_eq!(join_path("", "sub").as_str(), "sub");
}

#[test]
fn join_absolute_subpath_replaces_base() {
    assert_eq!(join_path("/data", "/etc").as_str(), "/etc");
}

#[test]
fn containment_needs_segment_boundary() {
    assert!(check_contained("/data", "/data"));
    assert!(check_contained("/data", "/data/sub"));
    assert!(check_contained("/data", "/data/sub/deep"));
    assert!(!check_contained("/data", "/data-evil"));
    assert!(!check_contained("/data", "/datax/sub"));
    assert!(!check_contained("/data", "/etc"));
    assert!(!check_contained("/data", "/dat"));
    assert!(check_contained("/", "/anything"));
    assert!(check_contained("/", "/"));
}

#[test]
fn resolve_accepts_only_contained_dirs() {
    let rp = resolve_in_root("/data", "/data/sub", "f.txt").unwrap();
    assert_eq!(rp.full_path().as_str(), "/data/sub/f.txt");
    assert!(resolve_in_root("/data", "/etc", "f.txt").is_none());
    assert!(resolve_in_root("/data", "/data-evil", "f.txt").is_none());
    assert!(resolve_in_root("/data", "/data/sub", "a/b").is_none());
    assert!(resolve_in_root("/data", "/data/sub", "..").is_none());
}

#[test]
fn distinct_names_give_distinct_paths() {
    let a = resolve_in_root("/data", "/data/sub", "a.txt").unwrap();
    let b = resolve_in_root("/data", "/data/sub", "b.txt").unwrap();
    assert_ne!(a.full_path().as_str(), b.full_path().as_str());
}

#[test]
fn trim_strips_both_ends() {
    assert_eq!(trim("  sub/dir \t").as_str(), "sub/dir");
    assert_eq!(trim("plain").as_str(), "plain");
    assert_eq!(trim("   ").as_str(), "");
    assert_eq!(trim("").as_str(), "");
    assert_eq!(trim("\u{3000}wide\u{a0}").as_str(), "wide");
}

#[test]
fn replace_spells_out_bare_unit() {
    assert_eq!(replace_b_unit("5 B").as_str(), "5 bytes");
    assert_eq!(replace_b_unit("2.05 kB").as_str(), "2.05 kB");
    assert_eq!(replace_b_unit("1 B and 2 B").as_str(), "1 bytes and 2 bytes");
    assert_eq!(replace_b_unit("").as_str(), "");
}
