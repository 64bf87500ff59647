use rpg2linux::parse_steam_args;
use rpg2linux::steam::{classify_token, filter_steam_args, strip_program_name, TokenKind};

const STEAM: &str = "/home/user/.local/share/Steam";

fn s(v: &[&str]) -> Vec<String> {
    v.iter().map(|x| x.to_string()).collect()
}

fn proton_chain() -> Vec<String> {
    vec![
        format!("{STEAM}/ubuntu12_32/reaper"),
        "SteamLaunch".to_string(),
        "AppId=123456".to_string(),
        "--".to_string(),
        format!("{STEAM}/ubuntu12_32/steam-launch-wrapper"),
        "--".to_string(),
        format!("{STEAM}/steamapps/common/SteamLinuxRuntime_sniper/_v2-entry-point"),
        "--verb=waitforexitandrun".to_string(),
        "--".to_string(),
        format!("{STEAM}/steamapps/common/Proton 8.0/proton"),
        "waitforexitandrun".to_string(),
        format!("{STEAM}/steamapps/common/Game/Game.exe"),
    ]
}

fn direct_chain() -> Vec<String> {
    vec![
        format!("{STEAM}/ubuntu12_32/reaper"),
        "SteamLaunch".to_string(),
        "AppId=123456".to_string(),
        "--".to_string(),
        format!("{STEAM}/ubuntu12_32/steam-launch-wrapper"),
        "--".to_string(),
        format!("{STEAM}/steamapps/common/Game/Game.exe"),
    ]
}

fn expected() -> Vec<String> {
    vec![
        format!("{STEAM}/ubuntu12_32/reaper"),
        "SteamLaunch".to_string(),
        "AppId=123456".to_string(),
        "--".to_string(),
        "--".to_string(),
        format!("{STEAM}/ubuntu12_32/steam-launch-wrapper"),
        "--".to_string(),
        format!("{STEAM}/steamapps/common/Game"),
    ]
}

fn no_markers(args: &[String]) -> bool {
    args.iter().all(|a| !a.contains("common/Proton") && !a.contains("common/SteamLinuxRuntime"))
}

#[test]
fn proton_chain_reduces_to_target_arguments() {
    let out = parse_steam_args(proton_chain());
    assert_eq!(out, expected());
    assert_eq!(out.last().unwrap(), &format!("{STEAM}/steamapps/common/Game"));
    assert!(no_markers(&out));
}

#[test]
fn direct_chain_reduces_to_target_arguments() {
    let out = parse_steam_args(direct_chain());
    assert_eq!(out, expected());
    assert!(no_markers(&out));
}

#[test]
fn filter_keeps_the_executable_path() {
    let kept = filter_steam_args(&proton_chain());
    assert_eq!(kept.last().unwrap(), &format!("{STEAM}/steamapps/common/Game/Game.exe"));
    assert_eq!(kept.len(), 8);
}

#[test]
fn separator_is_restored_before_the_fourth_token() {
    let kept = filter_steam_args(&s(&["a", "b", "c", "d", "e"]));
    assert_eq!(kept, s(&["a", "b", "c", "--", "d", "e"]));
    let short = filter_steam_args(&s(&["a", "b", "c"]));
    assert_eq!(short, s(&["a", "b", "c"]));
    assert!(filter_steam_args(&Vec::new()).is_empty());
}

#[test]
fn last_token_without_slash_becomes_empty() {
    assert_eq!(parse_steam_args(s(&["game"])), s(&[""]));
    assert_eq!(parse_steam_args(s(&["x", "dir/sub/game"])), s(&["x", "dir/sub"]));
}

#[test]
fn tokens_are_classified_by_marker() {
    assert_eq!(classify_token("/a/Steam/ubuntu12_32/reaper"), TokenKind::RealTargetPath);
    assert_eq!(classify_token("/s/common/SteamLinuxRuntime_soldier/run"), TokenKind::ContainerMarker);
    assert_eq!(classify_token("/s/common/Proton - Experimental/proton"), TokenKind::CompatToolMarker);
    assert_eq!(classify_token("waitforexitandrun"), TokenKind::WaitMarker);
    assert_eq!(classify_token("--verb=waitforexitandrun"), TokenKind::Plain);
    assert_eq!(classify_token(""), TokenKind::Plain);
}

#[test]
fn program_name_is_stripped_at_the_last_slash() {
    assert_eq!(strip_program_name("/games/x/Game.exe"), "/games/x");
    assert_eq!(strip_program_name("/games/x/"), "/games/x");
    assert_eq!(strip_program_name("Game.exe"), "");
    assert_eq!(strip_program_name(""), "");
    assert_eq!(strip_program_name("/Game.exe"), "");
}
