use vstd::prelude::*;

use crate::error::ErrorKind;
use crate::paths::{executable_destination, join, resolve, SEP};

verus! {

/// How far the confinement of this process has gone. Each stage only ever
/// gives way to a later one: once the root has changed it never changes
/// back.
#[derive(PartialEq, Eq, Structural, Clone, Copy, Debug)]
pub enum Stage {
    /// The executable is being copied into the root.
    CopyingExecutable,
    /// The null device stub is being created in the root.
    CreatingDevice,
    /// The process root is being changed.
    ChangingRoot,
    /// The process now lives in the new root; the process-ID namespace is
    /// being entered.
    RootChanged,
    /// Confined to the root and to a fresh process-ID namespace.
    NamespaceIsolated,
    /// Confined to the root; the namespace could not be had, which is not
    /// fatal.
    NamespaceSkipped,
    /// Setup failed before the root changed.
    Failed,
}

/// What the caller reports after performing the last action.
#[derive(PartialEq, Eq, Structural, Clone, Copy, Debug)]
pub enum Outcome {
    Succeeded,
    Failed,
}

/// What the caller is to do next.
#[derive(PartialEq, Eq, Structural, Clone, Copy, Debug)]
pub enum BootAction {
    /// Copy the executable to its destination below the root.
    CopyExecutable,
    /// Create an empty `dev/null` below the root, with its directory.
    CreateDeviceNull,
    /// Make the root the process's filesystem root.
    ChangeRoot,
    /// Move into a new process-ID namespace where the platform has them.
    EnterPidNamespace,
    /// Confinement is complete; the command may run.
    Ready,
    /// Setup failed; the command must not run.
    Abort(ErrorKind),
    /// The outcome did not belong to this stage; nothing changed.
    Idle,
}

/// The order of the stages; `Failed` comes before the root changes.
pub open spec fn rank(s: Stage) -> nat {
    match s {
        Stage::CopyingExecutable => 0,
        Stage::CreatingDevice => 1,
        Stage::Failed => 2,
        Stage::ChangingRoot => 2,
        Stage::RootChanged => 3,
        Stage::NamespaceIsolated => 4,
        Stage::NamespaceSkipped => 4,
    }
}

/// Confinement has ended, complete or failed.
pub open spec fn is_final(s: Stage) -> bool {
    s == Stage::Failed || s == Stage::NamespaceIsolated || s == Stage::NamespaceSkipped
}

/// One step of the bootstrap: the next stage and the action.
pub open spec fn boot_next(s: Stage, o: Outcome) -> (Stage, BootAction) {
    match (s, o) {
        (Stage::CopyingExecutable, Outcome::Succeeded) => (
            Stage::CreatingDevice,
            BootAction::CreateDeviceNull,
        ),
        (Stage::CreatingDevice, Outcome::Succeeded) => (Stage::ChangingRoot, BootAction::ChangeRoot),
        (Stage::ChangingRoot, Outcome::Succeeded) => (
            Stage::RootChanged,
            BootAction::EnterPidNamespace,
        ),
        (Stage::CopyingExecutable, Outcome::Failed) => (
            Stage::Failed,
            BootAction::Abort(ErrorKind::Setup),
        ),
        (Stage::CreatingDevice, Outcome::Failed) => (
            Stage::Failed,
            BootAction::Abort(ErrorKind::Setup),
        ),
        (Stage::ChangingRoot, Outcome::Failed) => (
            Stage::Failed,
            BootAction::Abort(ErrorKind::Setup),
        ),
        (Stage::RootChanged, Outcome::Succeeded) => (Stage::NamespaceIsolated, BootAction::Ready),
        (Stage::RootChanged, Outcome::Failed) => (Stage::NamespaceSkipped, BootAction::Ready),
        _ => (s, BootAction::Idle),
    }
}

/// The actions handed out for a sequence of outcomes.
pub open spec fn boot_run(s: Stage, os: Seq<Outcome>) -> Seq<BootAction>
    decreases os.len(),
{
    if os.len() == 0 {
        Seq::empty()
    } else {
        seq![boot_next(s, os[0]).1] + boot_run(boot_next(s, os[0]).0, os.drop_first())
    }
}

/// The confinement of this process to an extraction root.
pub struct Bootstrap {
    pub stage: Stage,
    /// Where the executable goes, relative to the root.
    pub destination: Vec<u8>,
}

impl Bootstrap {
    /// Starts confinement for the executable at the absolute path `exe`;
    /// the first action copies it to `destination` below the root, or the
    /// setup is refused where `exe` has no place below the root.
    pub fn start(exe: &[u8]) -> (r: (Bootstrap, BootAction))
        ensures
            (exe@.len() > 0 && exe@[0] == SEP && resolve(exe@) is Some && resolve(
                exe@,
            )->Some_0.len() > 0) ==> {
                &&& r.0.stage == Stage::CopyingExecutable
                &&& r.0.destination@ == join(resolve(exe@)->Some_0)
                &&& r.1 == BootAction::CopyExecutable
            },
            !(exe@.len() > 0 && exe@[0] == SEP && resolve(exe@) is Some && resolve(
                exe@,
            )->Some_0.len() > 0) ==> r.0.stage == Stage::Failed && r.1 == BootAction::Abort(
                ErrorKind::Setup,
            ),
    {
        match executable_destination(exe) {
            Ok(destination) => (
                Bootstrap { stage: Stage::CopyingExecutable, destination },
                BootAction::CopyExecutable,
            ),
            Err(e) => (Bootstrap { stage: Stage::Failed, destination: Vec::new() }, BootAction::Abort(e)),
        }
    }

    /// Moves the bootstrap on by one outcome and says what to do next.
    pub fn step(&mut self, o: Outcome) -> (a: BootAction)
        ensures
            (final(self).stage, a) == boot_next(old(self).stage, o),
            final(self).destination == old(self).destination,
    {
        let (s, a) = match (self.stage, o) {
            (Stage::CopyingExecutable, Outcome::Succeeded) => (
                Stage::CreatingDevice,
                BootAction::CreateDeviceNull,
            ),
            (Stage::CreatingDevice, Outcome::Succeeded) => (
                Stage::ChangingRoot,
                BootAction::ChangeRoot,
            ),
            (Stage::ChangingRoot, Outcome::Succeeded) => (
                Stage::RootChanged,
                BootAction::EnterPidNamespace,
            ),
            (Stage::CopyingExecutable, Outcome::Failed)
            | (Stage::CreatingDevice, Outcome::Failed)
            | (Stage::ChangingRoot, Outcome::Failed) => (
                Stage::Failed,
                BootAction::Abort(ErrorKind::Setup),
            ),
            (Stage::RootChanged, Outcome::Succeeded) => (
                Stage::NamespaceIsolated,
                BootAction::Ready,
            ),
            (Stage::RootChanged, Outcome::Failed) => (Stage::NamespaceSkipped, BootAction::Ready),
            (st, _) => (st, BootAction::Idle),
        };
        self.stage = s;
        a
    }
}

/// No step goes back to an earlier stage.
pub proof fn lemma_boot_never_goes_back(s: Stage, o: Outcome)
    ensures
        rank(boot_next(s, o).0) >= rank(s),
        boot_next(s, o).1 == BootAction::ChangeRoot ==> s == Stage::CreatingDevice,
        is_final(s) ==> boot_next(s, o) == (s, BootAction::Idle),
{
}

/// Once the change of root has been handed out, it is never handed out again.
proof fn lemma_no_change_root_after(s: Stage, os: Seq<Outcome>)
    requires
        rank(s) >= 2,
    ensures
        forall|i: int| 0 <= i < boot_run(s, os).len() ==> boot_run(s, os)[i] != BootAction::ChangeRoot,
        boot_run(s, os).len() == os.len(),
    decreases os.len(),
{
    if os.len() > 0 {
        let s2 = boot_next(s, os[0]).0;
        lemma_no_change_root_after(s2, os.drop_first());
        let r = boot_run(s, os);
        assert(r.drop_first() =~= boot_run(s2, os.drop_first()));
        assert forall|i: int| 0 <= i < r.len() implies r[i] != BootAction::ChangeRoot by {
            if i > 0 {
                assert(r[i] == boot_run(s2, os.drop_first())[i - 1]);
            }
        }
    }
}

/// The change of root is one way: whatever the outcomes, a bootstrap asks
/// for it at most once, and only before the root has changed.
pub proof fn lemma_change_root_at_most_once(s: Stage, os: Seq<Outcome>)
    ensures
        forall|i: int, j: int|
            0 <= i < j < boot_run(s, os).len() && #[trigger] boot_run(s, os)[i]
                == BootAction::ChangeRoot ==> #[trigger] boot_run(s, os)[j]
                != BootAction::ChangeRoot,
        rank(s) >= 2 ==> forall|i: int|
            0 <= i < boot_run(s, os).len() ==> boot_run(s, os)[i] != BootAction::ChangeRoot,
    decreases os.len(),
{
    if os.len() > 0 {
        let s2 = boot_next(s, os[0]).0;
        lemma_change_root_at_most_once(s2, os.drop_first());
        let r = boot_run(s, os);
        let rest = boot_run(s2, os.drop_first());
        assert(r.drop_first() =~= rest);
        if r[0] == BootAction::ChangeRoot {
            lemma_no_change_root_after(s2, os.drop_first());
        }
        if rank(s) >= 2 {
            lemma_no_change_root_after(s, os);
        }
        assert forall|i: int, j: int|
            0 <= i < j < r.len() && #[trigger] r[i] == BootAction::ChangeRoot implies #[trigger] r[j]
                != BootAction::ChangeRoot by {
            assert(r[j] == rest[j - 1]);
            if i > 0 {
                assert(r[i] == rest[i - 1]);
            }
        }
    }
}

} // verus!
