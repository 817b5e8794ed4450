use bloom_cook::install::{
    advance_install, backup_name, start_install, temporary_name, InstallAction, InstallEvent, InstallPaths,
    InstallState,
};

fn paths() -> InstallPaths {
    InstallPaths {
        destination: "out/a.bin".to_string(),
        temporary: "out/.a.bin.7-9.tmp".to_string(),
        backup: "out/.a.bin.7-9.previous".to_string(),
    }
}

/// Runs an installation, answering each request from `outcomes` in turn,
/// and returns the actions asked for.
fn run(outcomes: Vec<InstallEvent>) -> Vec<InstallAction> {
    let (mut state, action) = start_install();
    let mut actions = vec![action];
    for event in outcomes {
        let (next, action) = advance_install(&state, &event, &paths());
        state = next;
        actions.push(action);
    }
    assert_eq!(state, InstallState::Finished);
    actions
}

#[test]
fn temporary_and_backup_names_sit_beside_the_destination() {
    assert_eq!(temporary_name("a.bin", "7-9"), ".a.bin.7-9.tmp");
    assert_eq!(backup_name("a.bin", "7-9"), ".a.bin.7-9.previous");
}

#[test]
fn a_plain_rename_installs_directly() {
    assert_eq!(run(vec![InstallEvent::Succeeded]), vec![InstallAction::RenameTemporary, InstallAction::Done]);
}

#[test]
fn an_existing_destination_is_kept_aside_then_removed() {
    let actions = run(vec![
        InstallEvent::Failed("denied".to_string()),
        InstallEvent::Exists(true),
        InstallEvent::Succeeded,
        InstallEvent::Succeeded,
        InstallEvent::Succeeded,
    ]);
    assert_eq!(
        actions,
        vec![
            InstallAction::RenameTemporary,
            InstallAction::CheckDestination,
            InstallAction::PreserveDestination,
            InstallAction::RenameTemporary,
            InstallAction::RemoveBackup,
            InstallAction::Done,
        ]
    );
}

#[test]
fn a_failed_rename_without_a_destination_fails() {
    let actions = run(vec![InstallEvent::Failed("no space".to_string()), InstallEvent::Exists(false)]);
    assert_eq!(
        actions.last(),
        Some(&InstallAction::Fail("install out/.a.bin.7-9.tmp as out/a.bin: no space".to_string()))
    );
}

#[test]
fn a_destination_that_cannot_be_kept_aside_fails() {
    let actions = run(vec![
        InstallEvent::Failed("denied".to_string()),
        InstallEvent::Exists(true),
        InstallEvent::Failed("busy".to_string()),
    ]);
    assert_eq!(
        actions.last(),
        Some(&InstallAction::Fail(
            "replace out/a.bin after rename error denied: could not preserve prior artifact: busy".to_string()
        ))
    );
}

#[test]
fn a_failed_reinstall_restores_the_prior_file() {
    let restored = run(vec![
        InstallEvent::Failed("denied".to_string()),
        InstallEvent::Exists(true),
        InstallEvent::Succeeded,
        InstallEvent::Failed("gone".to_string()),
        InstallEvent::Succeeded,
    ]);
    assert_eq!(restored[4], InstallAction::RestoreBackup);
    assert_eq!(
        restored[5],
        InstallAction::Fail("install out/a.bin failed: gone; prior artifact restore: pass".to_string())
    );
    let lost = run(vec![
        InstallEvent::Failed("denied".to_string()),
        InstallEvent::Exists(true),
        InstallEvent::Succeeded,
        InstallEvent::Failed("gone".to_string()),
        InstallEvent::Failed("also gone".to_string()),
    ]);
    assert_eq!(
        lost[5],
        InstallAction::Fail("install out/a.bin failed: gone; prior artifact restore: failed".to_string())
    );
}

#[test]
fn a_backup_that_cannot_be_removed_fails_after_installing() {
    let actions = run(vec![
        InstallEvent::Failed("denied".to_string()),
        InstallEvent::Exists(true),
        InstallEvent::Succeeded,
        InstallEvent::Succeeded,
        InstallEvent::Failed("locked".to_string()),
    ]);
    assert_eq!(
        actions.last(),
        Some(&InstallAction::Fail(
            "installed out/a.bin but could not remove backup out/.a.bin.7-9.previous: locked".to_string()
        ))
    );
}
