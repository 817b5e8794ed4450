//! Installing a fully written temporary file over a destination, keeping
//! the prior file as a backup where a plain rename cannot replace it.
//!
//! The installer decides; the caller performs each file operation it asks
//! for and reports how it went. When the installer stops with an error, the
//! caller removes the temporary file and returns that error.

use vstd::prelude::*;
use crate::text::{concat3, owned_text};

verus! {

/// The name of the temporary file written beside `file_name`.
pub open spec fn temporary_name_of(file_name: Seq<char>, unique: Seq<char>) -> Seq<char> {
    "."@ + file_name + "."@ + unique + ".tmp"@
}

/// The name the prior file is kept under while the new one is installed.
pub open spec fn backup_name_of(file_name: Seq<char>, unique: Seq<char>) -> Seq<char> {
    "."@ + file_name + "."@ + unique + ".previous"@
}

/// The temporary file name for a destination file name and a name unique
/// to this write.
pub fn temporary_name(file_name: &str, unique: &str) -> (name: String)
    ensures
        name@ == temporary_name_of(file_name@, unique@),
{
    let mut out = concat3(".", file_name, ".");
    out.append(unique);
    out.append(".tmp");
    out
}

/// The backup file name for a destination file name and a name unique to
/// this write.
pub fn backup_name(file_name: &str, unique: &str) -> (name: String)
    ensures
        name@ == backup_name_of(file_name@, unique@),
{
    let mut out = concat3(".", file_name, ".");
    out.append(unique);
    out.append(".previous");
    out
}

/// Where an installation stands.
#[derive(Clone, Debug, PartialEq, Eq)]
pub enum InstallState {
    /// The temporary file is being renamed onto the destination.
    Installing,
    /// That rename failed; whether the destination exists is being asked.
    Checking { first_error: String },
    /// The existing destination is being renamed to the backup name.
    Preserving { first_error: String },
    /// The temporary file is being renamed onto the freed destination.
    Reinstalling,
    /// The new file is in place; the backup is being removed.
    RemovingBackup,
    /// Installing failed; the backup is being renamed back.
    Restoring { install_error: String },
    /// Nothing more to do.
    Finished,
}

/// What the caller is asked to do next.
#[derive(Clone, Debug, PartialEq, Eq)]
pub enum InstallAction {
    /// Rename the temporary file onto the destination.
    RenameTemporary,
    /// Report whether the destination exists.
    CheckDestination,
    /// Rename the destination to the backup name.
    PreserveDestination,
    /// Remove the backup.
    RemoveBackup,
    /// Rename the backup onto the destination.
    RestoreBackup,
    /// The file is installed.
    Done,
    /// Remove the temporary file and fail with this text.
    Fail(String),
}

/// How the operation the caller was asked for went.
#[derive(Clone, Debug, PartialEq, Eq)]
pub enum InstallEvent {
    /// A rename or removal succeeded.
    Succeeded,
    /// A rename or removal failed with this text.
    Failed(String),
    /// Whether the destination exists.
    Exists(bool),
}

/// The displayed destination, temporary and backup paths.
pub struct InstallPaths {
    pub destination: String,
    pub temporary: String,
    pub backup: String,
}

pub enum InstallStateView {
    Installing,
    Checking { first_error: Seq<char> },
    Preserving { first_error: Seq<char> },
    Reinstalling,
    RemovingBackup,
    Restoring { install_error: Seq<char> },
    Finished,
}

pub enum InstallActionView {
    RenameTemporary,
    CheckDestination,
    PreserveDestination,
    RemoveBackup,
    RestoreBackup,
    Done,
    Fail(Seq<char>),
}

pub enum InstallEventView {
    Succeeded,
    Failed(Seq<char>),
    Exists(bool),
}

impl View for InstallState {
    type V = InstallStateView;

    open spec fn view(&self) -> InstallStateView {
        match self {
            InstallState::Installing => InstallStateView::Installing,
            InstallState::Checking { first_error } => InstallStateView::Checking { first_error: first_error@ },
            InstallState::Preserving { first_error } => InstallStateView::Preserving { first_error: first_error@ },
            InstallState::Reinstalling => InstallStateView::Reinstalling,
            InstallState::RemovingBackup => InstallStateView::RemovingBackup,
            InstallState::Restoring { install_error } => InstallStateView::Restoring { install_error: install_error@ },
            InstallState::Finished => InstallStateView::Finished,
        }
    }
}

impl View for InstallAction {
    type V = InstallActionView;

    open spec fn view(&self) -> InstallActionView {
        match self {
            InstallAction::RenameTemporary => InstallActionView::RenameTemporary,
            InstallAction::CheckDestination => InstallActionView::CheckDestination,
            InstallAction::PreserveDestination => InstallActionView::PreserveDestination,
            InstallAction::RemoveBackup => InstallActionView::RemoveBackup,
            InstallAction::RestoreBackup => InstallActionView::RestoreBackup,
            InstallAction::Done => InstallActionView::Done,
            InstallAction::Fail(t) => InstallActionView::Fail(t@),
        }
    }
}

impl View for InstallEvent {
    type V = InstallEventView;

    open spec fn view(&self) -> InstallEventView {
        match self {
            InstallEvent::Succeeded => InstallEventView::Succeeded,
            InstallEvent::Failed(t) => InstallEventView::Failed(t@),
            InstallEvent::Exists(b) => InstallEventView::Exists(*b),
        }
    }
}

/// Whether the caller can report `e` in state `s`: the answer to an
/// existence check there, the outcome of a file operation elsewhere, and
/// nothing once finished.
pub open spec fn accepts(s: InstallStateView, e: InstallEventView) -> bool {
    match s {
        InstallStateView::Checking { .. } => e is Exists,
        InstallStateView::Finished => false,
        _ => !(e is Exists),
    }
}

/// The next state and action after event `e` in state `s`, for the
/// destination `p`, temporary `t` and backup `b` as displayed.
pub open spec fn install_step(
    s: InstallStateView,
    e: InstallEventView,
    p: Seq<char>,
    t: Seq<char>,
    b: Seq<char>,
) -> (InstallStateView, InstallActionView) {
    match (s, e) {
        (InstallStateView::Installing, InstallEventView::Failed(first)) =>
            (InstallStateView::Checking { first_error: first }, InstallActionView::CheckDestination),
        (InstallStateView::Checking { first_error }, InstallEventView::Exists(true)) =>
            (InstallStateView::Preserving { first_error }, InstallActionView::PreserveDestination),
        (InstallStateView::Checking { first_error }, _) =>
            (InstallStateView::Finished,
            InstallActionView::Fail("install "@ + t + " as "@ + p + ": "@ + first_error)),
        (InstallStateView::Preserving { first_error }, InstallEventView::Failed(backup_error)) =>
            (InstallStateView::Finished, InstallActionView::Fail(
                "replace "@ + p + " after rename error "@ + first_error + ": could not preserve prior artifact: "@
                    + backup_error)),
        (InstallStateView::Preserving { .. }, _) =>
            (InstallStateView::Reinstalling, InstallActionView::RenameTemporary),
        (InstallStateView::Reinstalling, InstallEventView::Failed(install_error)) =>
            (InstallStateView::Restoring { install_error }, InstallActionView::RestoreBackup),
        (InstallStateView::Reinstalling, _) =>
            (InstallStateView::RemovingBackup, InstallActionView::RemoveBackup),
        (InstallStateView::RemovingBackup, InstallEventView::Failed(error)) =>
            (InstallStateView::Finished, InstallActionView::Fail(
                "installed "@ + p + " but could not remove backup "@ + b + ": "@ + error)),
        (InstallStateView::Restoring { install_error }, e) =>
            (InstallStateView::Finished, InstallActionView::Fail(
                "install "@ + p + " failed: "@ + install_error + "; prior artifact restore: "@
                    + (if e is Failed { "failed"@ } else { "pass"@ }))),
        _ => (InstallStateView::Finished, InstallActionView::Done),
    }
}

/// How many more steps an installation can take from a state.
pub open spec fn steps_left(s: InstallStateView) -> nat {
    match s {
        InstallStateView::Installing => 5,
        InstallStateView::Checking { .. } => 4,
        InstallStateView::Preserving { .. } => 3,
        InstallStateView::Reinstalling => 2,
        InstallStateView::RemovingBackup => 1,
        InstallStateView::Restoring { .. } => 1,
        InstallStateView::Finished => 0,
    }
}

/// Starts an installation: the first thing to do is the plain rename.
pub fn start_install() -> (started: (InstallState, InstallAction))
    ensures
        started.0@ == InstallStateView::Installing,
        started.1@ == InstallActionView::RenameTemporary,
{
    (InstallState::Installing, InstallAction::RenameTemporary)
}

fn joined4(a: &str, b: &str, c: &str, d: &str) -> (s: String)
    ensures
        s@ == a@ + b@ + c@ + d@,
{
    let mut out = concat3(a, b, c);
    out.append(d);
    out
}

/// Takes one step of an installation: the caller reports how the last
/// operation went and learns what to do next.
pub fn advance_install(state: &InstallState, event: &InstallEvent, paths: &InstallPaths) -> (next: (InstallState, InstallAction))
    requires
        accepts(state@, event@),
    ensures
        (next.0@, next.1@) == install_step(state@, event@, paths.destination@, paths.temporary@, paths.backup@),
{
    let p = paths.destination.as_str();
    match state {
        InstallState::Installing => match event {
            InstallEvent::Failed(first) =>
                (InstallState::Checking { first_error: first.clone() }, InstallAction::CheckDestination),
            _ => (InstallState::Finished, InstallAction::Done),
        },
        InstallState::Checking { first_error } => match event {
            InstallEvent::Exists(true) =>
                (InstallState::Preserving { first_error: first_error.clone() }, InstallAction::PreserveDestination),
            _ => {
                let mut out = joined4("install ", paths.temporary.as_str(), " as ", p);
                out.append(": ");
                out.append(first_error.as_str());
                (InstallState::Finished, InstallAction::Fail(out))
            },
        },
        InstallState::Preserving { first_error } => match event {
            InstallEvent::Failed(backup_error) => {
                let mut out = joined4("replace ", p, " after rename error ", first_error.as_str());
                out.append(": could not preserve prior artifact: ");
                out.append(backup_error.as_str());
                (InstallState::Finished, InstallAction::Fail(out))
            },
            _ => (InstallState::Reinstalling, InstallAction::RenameTemporary),
        },
        InstallState::Reinstalling => match event {
            InstallEvent::Failed(install_error) =>
                (InstallState::Restoring { install_error: install_error.clone() }, InstallAction::RestoreBackup),
            _ => (InstallState::RemovingBackup, InstallAction::RemoveBackup),
        },
        InstallState::RemovingBackup => match event {
            InstallEvent::Failed(error) => {
                let mut out = joined4("installed ", p, " but could not remove backup ", paths.backup.as_str());
                out.append(": ");
                out.append(error.as_str());
                (InstallState::Finished, InstallAction::Fail(out))
            },
            _ => (InstallState::Finished, InstallAction::Done),
        },
        InstallState::Restoring { install_error } => {
            let mut out = joined4("install ", p, " failed: ", install_error.as_str());
            out.append("; prior artifact restore: ");
            match event {
                InstallEvent::Failed(_) => out.append("failed"),
                _ => out.append("pass"),
            }
            (InstallState::Finished, InstallAction::Fail(out))
        },
        InstallState::Finished => (InstallState::Finished, InstallAction::Done),
    }
}

/// Every step brings an installation closer to its end: from any state
/// it finishes within `steps_left` steps.
pub proof fn law_installation_terminates(
    s: InstallStateView,
    e: InstallEventView,
    p: Seq<char>,
    t: Seq<char>,
    b: Seq<char>,
)
    requires
        accepts(s, e),
    ensures
        steps_left(install_step(s, e, p, t, b).0) < steps_left(s),
{
}

/// The prior file is removed only once the new one is in place: the
/// backup is removed only right after the temporary file was renamed onto
/// the freed destination, and a failure of that rename asks for the backup
/// to be restored.
pub proof fn law_backup_removed_only_once_installed(
    s: InstallStateView,
    e: InstallEventView,
    p: Seq<char>,
    t: Seq<char>,
    b: Seq<char>,
)
    requires
        accepts(s, e),
    ensures
        install_step(s, e, p, t, b).1 is RemoveBackup <==> (s is Reinstalling && e is Succeeded),
        (s is Reinstalling && e is Failed) ==> install_step(s, e, p, t, b).1 is RestoreBackup,
{
}

/// An installation reports success only when a rename of the temporary
/// file onto the destination succeeded (and, where the prior file had to
/// be kept aside, its backup is gone); it stops exactly when it reports
/// success or failure.
pub proof fn law_done_only_after_the_new_file_is_in_place(
    s: InstallStateView,
    e: InstallEventView,
    p: Seq<char>,
    t: Seq<char>,
    b: Seq<char>,
)
    requires
        accepts(s, e),
    ensures
        install_step(s, e, p, t, b).1 is Done
            <==> (e is Succeeded && (s is Installing || s is RemovingBackup)),
        install_step(s, e, p, t, b).0 is Finished
            <==> (install_step(s, e, p, t, b).1 is Done || install_step(s, e, p, t, b).1 is Fail),
{
}

} // verus!
