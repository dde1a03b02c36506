use isobox::command::{get_status_code, parse_arguments};
use isobox::error::ErrorKind;
use isobox::reference::parse_image;

#[test]
fn name_without_tag_defaults_to_latest() {
    let r = parse_image("alpine").unwrap();
    assert_eq!(r.name, "alpine");
    assert_eq!(r.tag, "latest");
}

#[test]
fn name_with_tag_is_split() {
    let r = parse_image("alpine:3.18").unwrap();
    assert_eq!(r.name, "alpine");
    assert_eq!(r.tag, "3.18");
}

#[test]
fn two_separators_are_refused() {
    assert_eq!(parse_image("a:b:c").unwrap_err(), ErrorKind::InvalidReference);
    assert_eq!(parse_image("::").unwrap_err(), ErrorKind::InvalidReference);
}

#[test]
fn empty_parts_are_kept() {
    let r = parse_image("ubuntu:").unwrap();
    assert_eq!(r.name, "ubuntu");
    assert_eq!(r.tag, "");
    let r = parse_image("").unwrap();
    assert_eq!(r.name, "");
    assert_eq!(r.tag, "latest");
}

fn words(ws: &[&str]) -> Vec<String> {
    ws.iter().map(|w| w.to_string()).collect()
}

#[test]
fn arguments_are_read_in_place() {
    let c = parse_arguments(&words(&["prog", "run", "busybox:1.36", "/bin/echo", "hi", "there"]))
        .unwrap();
    assert_eq!(c.image.name, "busybox");
    assert_eq!(c.image.tag, "1.36");
    assert_eq!(c.executable, "/bin/echo");
    assert_eq!(c.args, words(&["hi", "there"]));
}

#[test]
fn arguments_without_command_args() {
    let c = parse_arguments(&words(&["prog", "run", "alpine", "/bin/true"])).unwrap();
    assert_eq!(c.image.tag, "latest");
    assert!(c.args.is_empty());
}

#[test]
fn too_few_arguments_are_refused() {
    let r = parse_arguments(&words(&["prog", "run", "alpine"]));
    assert_eq!(r.err(), Some(ErrorKind::Usage));
}

#[test]
fn bad_reference_in_arguments_is_refused() {
    let r = parse_arguments(&words(&["prog", "run", "a:b:c", "/bin/true"]));
    assert_eq!(r.err(), Some(ErrorKind::InvalidReference));
}

#[test]
fn exit_code_is_the_commands() {
    assert_eq!(get_status_code(Some(7)), 7);
    assert_eq!(get_status_code(Some(0)), 0);
    assert_eq!(get_status_code(Some(-3)), -3);
}

#[test]
fn missing_exit_code_gives_one() {
    assert_eq!(get_status_code(None), 1);
}
