use deployer::run_deployer::command::Invocation;
use deployer::run_deployer::pull::svc::{
    complete_dir, reconcile, restart_service, unit_file_text, unit_step, unit_step_count,
    UnitPlan, UnitStep,
};
use deployer::run_deployer::pull::{after_command, first_command, PlanStep, StageOutcome};

fn systemctl(verb: &str, unit: &str) -> Invocation {
    Invocation {
        program: String::from("systemctl"),
        args: vec![verb.to_string(), unit.to_string()],
        current_dir: None,
    }
}

fn lines() -> Vec<String> {
    vec![
        String::from("[Unit]"),
        String::from("Description=Your desc"),
        String::from(""),
        String::from("[Service]"),
    ]
}

#[test]
fn unit_path_is_directory_slash_file() {
    assert_eq!(
        complete_dir("/lib/systemd/system", "api.service"),
        "/lib/systemd/system/api.service"
    );
}

#[test]
fn unit_text_ends_every_line() {
    assert_eq!(
        unit_file_text(&lines()),
        "[Unit]\nDescription=Your desc\n\n[Service]\n"
    );
    assert_eq!(unit_file_text(&[]), "");
}

#[test]
fn a_missing_unit_is_written_and_started() {
    let plan = reconcile(false, "api.service", "/lib/systemd/system", &lines());
    assert_eq!(
        plan,
        UnitPlan {
            unit_path: String::from("/lib/systemd/system/api.service"),
            contents: Some(String::from("[Unit]\nDescription=Your desc\n\n[Service]\n")),
            command: systemctl("start", "api.service"),
        }
    );
}

#[test]
fn an_existing_unit_is_kept_and_restarted() {
    let plan = reconcile(true, "api.service", "/lib/systemd/system", &lines());
    assert_eq!(
        plan,
        UnitPlan {
            unit_path: String::from("/lib/systemd/system/api.service"),
            contents: None,
            command: systemctl("restart", "api.service"),
        }
    );
}

#[test]
fn restart_service_asks_the_file_system() {
    let there = restart_service("tmp", "", &lines());
    assert_eq!(there.unit_path, "/tmp");
    assert_eq!(there.contents, None);
    assert_eq!(there.command, systemctl("restart", "tmp"));

    let missing = restart_service("api.service", "/no-such-directory-for-deployer-tests", &lines());
    assert_eq!(missing.unit_path, "/no-such-directory-for-deployer-tests/api.service");
    assert_eq!(
        missing.contents,
        Some(String::from("[Unit]\nDescription=Your desc\n\n[Service]\n"))
    );
    assert_eq!(missing.command, systemctl("start", "api.service"));
}

#[test]
fn a_missing_unit_is_written_before_it_is_started() {
    let plan = reconcile(false, "api.service", "/lib/systemd/system", &lines());
    assert_eq!(unit_step_count(&plan), 2);
    assert_eq!(unit_step(&plan, 0), Some(UnitStep::Write));
    assert_eq!(unit_step(&plan, 1), Some(UnitStep::Command));
    assert_eq!(unit_step(&plan, 2), None);
    assert_eq!(first_command(unit_step_count(&plan)), PlanStep::Run(0));
    assert_eq!(
        after_command(unit_step_count(&plan), 0, StageOutcome::Succeeded),
        PlanStep::Run(1)
    );
}

#[test]
fn a_unit_that_cannot_be_written_is_not_started() {
    let plan = reconcile(false, "api.service", "/lib/systemd/system", &lines());
    assert_eq!(
        after_command(unit_step_count(&plan), 0, StageOutcome::Failure),
        PlanStep::Ended(StageOutcome::Failure)
    );
}

#[test]
fn an_existing_unit_has_the_command_as_its_only_step() {
    let plan = reconcile(true, "api.service", "/lib/systemd/system", &lines());
    assert_eq!(unit_step_count(&plan), 1);
    assert_eq!(unit_step(&plan, 0), Some(UnitStep::Command));
    assert_eq!(unit_step(&plan, 1), None);
    assert_eq!(
        after_command(unit_step_count(&plan), 0, StageOutcome::Succeeded),
        PlanStep::Ended(StageOutcome::Succeeded)
    );
}
