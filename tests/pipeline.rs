use rpg2linux::config::{Config, FileAsociation};
use rpg2linux::errors::Errors;
use rpg2linux::processor::{check_and_correct_data, latest_index, process, Action, Data, Outcome, Pipeline, Stage};
use rpg2linux::version::NWJS;

fn nwjs(v: &str) -> NWJS {
    NWJS { nwjs_version: v.to_string(), especific_nwjs_commands: Vec::new() }
}

fn sample_config() -> Config {
    Config {
        file_asociations: vec![FileAsociation {
            origin_file: "www/img/a.png".to_string(),
            destination_files: vec!["www/img/A.png".to_string(), "www/img/A.PNG".to_string()],
            allows_symlink: true,
        }],
        checked_nwjs_versions: vec![nwjs("0.50.*"), nwjs("0.83.0"), nwjs("0.9.0")],
        pre_operation_commands: vec!["echo pre".to_string()],
        post_operation_commands: vec!["echo post".to_string()],
    }
}

fn is_work(a: &Action) -> bool {
    matches!(a, Action::RunCommand(_) | Action::CreateLink { .. } | Action::ProvisionRuntime { .. })
}

#[test]
fn unrecognized_directory_fails_before_any_work() {
    let mut p = Pipeline::new("/games/x".to_string());
    let first = p.step(Outcome::Succeeded);
    assert!(matches!(first, Action::CheckMarker));
    let second = p.step(Outcome::Failed(Errors::IOError("no nw.dll".to_string())));
    match second {
        Action::Finish(Err(Errors::UnknownFolder(dir, _))) => assert_eq!(dir, "/games/x"),
        _ => panic!("expected an unknown folder"),
    }
    assert_eq!(p.stage, Stage::Failed);
    for _ in 0..3 {
        let a = p.step(Outcome::Succeeded);
        assert!(!is_work(&a));
        assert!(matches!(a, Action::Finish(Err(_))));
    }
}

#[test]
fn pre_operation_failure_stops_before_links_and_runtime() {
    let mut p = process(Data::new("/games/x".to_string(), sample_config()));
    match p.step(Outcome::Succeeded) {
        Action::RunCommand(c) => assert_eq!(c, "echo pre"),
        _ => panic!("expected the pre-operation command"),
    }
    match p.step(Outcome::Refused("boom".to_string())) {
        Action::Finish(Err(Errors::ProcessError(phase, msg))) => {
            assert_eq!(phase, "pre_op");
            assert_eq!(msg, "boom");
        }
        _ => panic!("expected a process error"),
    }
    for _ in 0..3 {
        assert!(!is_work(&p.step(Outcome::Succeeded)));
    }
}

#[test]
fn full_run_issues_every_step_in_order() {
    let mut p = Pipeline::new("/games/x".to_string());
    assert!(matches!(p.step(Outcome::Succeeded), Action::CheckMarker));
    assert!(matches!(p.step(Outcome::Succeeded), Action::LoadConfig));
    match p.step(Outcome::Loaded(sample_config())) {
        Action::RunCommand(c) => assert_eq!(c, "echo pre"),
        _ => panic!("expected the pre-operation command"),
    }
    match p.step(Outcome::Succeeded) {
        Action::CreateLink { origin, destination, symlink } => {
            assert_eq!(origin, "www/img/a.png");
            assert_eq!(destination, "www/img/A.png");
            assert!(symlink);
        }
        _ => panic!("expected a link"),
    }
    match p.step(Outcome::Succeeded) {
        Action::CreateLink { destination, .. } => assert_eq!(destination, "www/img/A.PNG"),
        _ => panic!("expected a link"),
    }
    match p.step(Outcome::Succeeded) {
        Action::ProvisionRuntime { latest, others } => {
            assert_eq!(latest, 1);
            assert_eq!(others, vec![0, 2]);
        }
        _ => panic!("expected the runtime"),
    }
    match p.step(Outcome::Succeeded) {
        Action::RunCommand(c) => assert_eq!(c, "echo post"),
        _ => panic!("expected the post-operation command"),
    }
    assert!(matches!(p.step(Outcome::Succeeded), Action::Finish(Ok(()))));
    assert_eq!(p.stage, Stage::Done);
}

#[test]
fn post_operation_failure_names_its_phase() {
    let mut cfg = sample_config();
    cfg.pre_operation_commands.clear();
    cfg.file_asociations.clear();
    let mut p = process(Data::new("/g".to_string(), cfg));
    assert!(matches!(p.step(Outcome::Succeeded), Action::ProvisionRuntime { .. }));
    assert!(matches!(p.step(Outcome::Succeeded), Action::RunCommand(_)));
    match p.step(Outcome::Refused("bad".to_string())) {
        Action::Finish(Err(Errors::ProcessError(phase, _))) => assert_eq!(phase, "post_op"),
        _ => panic!("expected a process error"),
    }
}

#[test]
fn runtime_failure_is_passed_on() {
    let mut cfg = sample_config();
    cfg.pre_operation_commands.clear();
    cfg.file_asociations.clear();
    let mut p = process(Data::new("/g".to_string(), cfg));
    assert!(matches!(p.step(Outcome::Succeeded), Action::ProvisionRuntime { .. }));
    let a = p.step(Outcome::Failed(Errors::ConnectionError("offline".to_string())));
    assert!(matches!(a, Action::Finish(Err(Errors::ConnectionError(_)))));
}

#[test]
fn loaded_configuration_without_versions_fails() {
    let mut p = Pipeline::new("/g".to_string());
    let _ = p.step(Outcome::Succeeded);
    let _ = p.step(Outcome::Succeeded);
    let mut cfg = sample_config();
    cfg.checked_nwjs_versions.clear();
    assert!(matches!(p.step(Outcome::Loaded(cfg)), Action::Finish(Err(Errors::MissingNWJSVersions))));
}

#[test]
fn empty_configuration_finishes_at_once() {
    let mut p = process(Data::new("/g".to_string(), Config::empty()));
    assert!(matches!(p.step(Outcome::Succeeded), Action::Finish(Ok(()))));
}

#[test]
fn check_reports_missing_versions_then_associations() {
    let mut d = Data::new("/g".to_string(), sample_config());
    assert!(check_and_correct_data(&mut d).is_ok());
    d.config.file_asociations[0].destination_files.clear();
    assert!(matches!(check_and_correct_data(&mut d), Err(Errors::MissingFileAssociations)));
    d.config.checked_nwjs_versions.clear();
    assert!(matches!(check_and_correct_data(&mut d), Err(Errors::MissingNWJSVersions)));
}

#[test]
fn default_configuration_declares_any_version() {
    let c = Config::default();
    assert_eq!(c.checked_nwjs_versions.len(), 1);
    assert_eq!(c.checked_nwjs_versions[0].nwjs_version, "*.*.*");
    assert!(c.file_asociations.is_empty());
    assert!(c.pre_operation_commands.is_empty() && c.post_operation_commands.is_empty());
}

#[test]
fn latest_declared_version_wins_last_among_equals() {
    assert_eq!(latest_index(&vec![nwjs("1.2"), nwjs("1.10"), nwjs("1.9")]), 1);
    assert_eq!(latest_index(&vec![nwjs("0.5"), nwjs("1.0"), nwjs("01.0")]), 2);
    assert_eq!(latest_index(&vec![nwjs("1.0.0"), nwjs("1.0")]), 0);
}
