use isobox::error::ErrorKind;
use isobox::paths::{executable_destination, resolve_entry_path};

fn ok(p: &str) -> String {
    String::from_utf8(resolve_entry_path(p.as_bytes()).unwrap()).unwrap()
}

fn refused(p: &str) -> bool {
    resolve_entry_path(p.as_bytes()) == Err(ErrorKind::Extraction)
}

#[test]
fn plain_paths_are_kept() {
    assert_eq!(ok("bin/sh"), "bin/sh");
    assert_eq!(ok("etc/"), "etc");
}

#[test]
fn dots_and_separators_are_resolved() {
    assert_eq!(ok("./bin/busybox"), "bin/busybox");
    assert_eq!(ok("/usr/lib"), "usr/lib");
    assert_eq!(ok("a//b/./c/"), "a/b/c");
    assert_eq!(ok("a/b/../c"), "a/c");
    assert_eq!(ok("a/.."), "");
    assert_eq!(ok("./"), "");
    assert_eq!(ok("..a/b.."), "..a/b..");
}

#[test]
fn traversal_is_refused() {
    assert!(refused(".."));
    assert!(refused("../etc/passwd"));
    assert!(refused("/../etc/passwd"));
    assert!(refused("a/../../b"));
}

#[test]
fn deep_traversal_is_refused() {
    assert!(refused("a/b/c/../../../../x"));
    assert!(refused("a/b/c/d/e/f/../../../../../../../etc/shadow"));
    assert!(refused("../a/b/c/d"));
}

#[test]
fn executable_goes_below_root() {
    let d = executable_destination(b"/bin/sh").unwrap();
    assert_eq!(d, b"bin/sh".to_vec());
    let d = executable_destination(b"//usr/./local/bin/tool").unwrap();
    assert_eq!(d, b"usr/local/bin/tool".to_vec());
}

#[test]
fn executable_must_be_absolute_and_inside() {
    assert_eq!(executable_destination(b"bin/sh"), Err(ErrorKind::Setup));
    assert_eq!(executable_destination(b""), Err(ErrorKind::Setup));
    assert_eq!(executable_destination(b"/"), Err(ErrorKind::Setup));
    assert_eq!(executable_destination(b"/../usr/bin/x"), Err(ErrorKind::Setup));
}

#[test]
fn same_file_in_two_layers_lands_in_one_place() {
    assert_eq!(ok("./etc/motd"), ok("etc/motd"));
    assert_eq!(ok("etc/../etc/motd"), ok("/etc/motd"));
}
