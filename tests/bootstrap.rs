use isobox::bootstrap::{BootAction, Bootstrap, Outcome, Stage};
use isobox::error::ErrorKind;

#[test]
fn confinement_runs_in_order() {
    let (mut b, a) = Bootstrap::start(b"/bin/echo");
    assert_eq!(a, BootAction::CopyExecutable);
    assert_eq!(b.destination, b"bin/echo".to_vec());
    assert_eq!(b.step(Outcome::Succeeded), BootAction::CreateDeviceNull);
    assert_eq!(b.step(Outcome::Succeeded), BootAction::ChangeRoot);
    assert_eq!(b.stage, Stage::ChangingRoot);
    assert_eq!(b.step(Outcome::Succeeded), BootAction::EnterPidNamespace);
    assert_eq!(b.stage, Stage::RootChanged);
    assert_eq!(b.step(Outcome::Succeeded), BootAction::Ready);
    assert_eq!(b.stage, Stage::NamespaceIsolated);
}

#[test]
fn missing_namespace_is_not_fatal() {
    let (mut b, _) = Bootstrap::start(b"/bin/echo");
    b.step(Outcome::Succeeded);
    b.step(Outcome::Succeeded);
    b.step(Outcome::Succeeded);
    assert_eq!(b.step(Outcome::Failed), BootAction::Ready);
    assert_eq!(b.stage, Stage::NamespaceSkipped);
}

#[test]
fn failed_copy_or_chroot_is_a_setup_error() {
    let (mut b, _) = Bootstrap::start(b"/bin/echo");
    assert_eq!(b.step(Outcome::Failed), BootAction::Abort(ErrorKind::Setup));
    assert_eq!(b.stage, Stage::Failed);

    let (mut b, _) = Bootstrap::start(b"/bin/echo");
    b.step(Outcome::Succeeded);
    b.step(Outcome::Succeeded);
    assert_eq!(b.step(Outcome::Failed), BootAction::Abort(ErrorKind::Setup));
    assert_eq!(b.step(Outcome::Succeeded), BootAction::Idle);
}

#[test]
fn root_changes_only_once() {
    let (mut b, _) = Bootstrap::start(b"/bin/echo");
    b.step(Outcome::Succeeded);
    assert_eq!(b.step(Outcome::Succeeded), BootAction::ChangeRoot);
    b.step(Outcome::Succeeded);
    b.step(Outcome::Succeeded);
    for _ in 0..3 {
        assert_eq!(b.step(Outcome::Succeeded), BootAction::Idle);
        assert_eq!(b.step(Outcome::Failed), BootAction::Idle);
    }
    assert_eq!(b.stage, Stage::NamespaceIsolated);
}

#[test]
fn relative_executable_is_refused() {
    let (b, a) = Bootstrap::start(b"echo");
    assert_eq!(a, BootAction::Abort(ErrorKind::Setup));
    assert_eq!(b.stage, Stage::Failed);
}
