use rpg2linux::cache_folder_for;
use rpg2linux::run::{exit_result, steam_launch_command, RunErrors};

#[test]
fn unsuccessful_exit_reports_its_code() {
    assert!(exit_result(true, Some(0)).is_ok());
    assert!(matches!(exit_result(false, Some(3)), Err(RunErrors::RunError(3))));
    assert!(matches!(exit_result(false, None), Err(RunErrors::RunError(128))));
}

#[test]
fn steam_launch_appends_executable_name() {
    let args = vec!["reaper".to_string(), "--".to_string(), "/cache/nwjs".to_string()];
    let (program, rest) = steam_launch_command(args);
    assert_eq!(program, "reaper");
    assert_eq!(rest, vec!["--".to_string(), "/cache/nwjs/nw".to_string()]);
}

#[test]
fn cache_folder_is_under_the_home_directory() {
    assert_eq!(cache_folder_for("ana"), "/home/ana/.cache/rpg2linux/");
}
