use irelia::discovery::{
    credentials, credentials_from_lock_file, find_process, scan_command_line, select_strategy,
    start_discovery, strip_prefix, Lookup, MatchKind, ProcessRecord, Strategy,
};
use irelia::registry::{identities, Platform, PlatformIdentities};
use irelia::Error;

fn ids() -> PlatformIdentities {
    identities(Platform::Windows).unwrap()
}

fn record(name: &str, exe: Option<&str>, cmd: &[&str]) -> ProcessRecord {
    ProcessRecord {
        name: name.to_string(),
        exe: exe.map(|e| e.to_string()),
        cmd: cmd.iter().map(|a| a.to_string()).collect(),
    }
}

fn client(cmd: &[&str]) -> ProcessRecord {
    record("LeagueClientUx.exe", Some("/opt/riot/LeagueClientUx.exe"), cmd)
}

fn game() -> ProcessRecord {
    record("League of Legends.exe", Some("/opt/riot/Game/League of Legends.exe"), &[])
}

fn ready(r: Result<Lookup, Error>) -> (String, String) {
    match r {
        Ok(Lookup::Ready(a, h)) => (a, h),
        _ => panic!("expected credentials"),
    }
}

fn lock_dir(r: Result<Lookup, Error>) -> String {
    match r {
        Ok(Lookup::ReadLockFile(d)) => d,
        _ => panic!("expected a lock file directory"),
    }
}

#[test]
fn identities_per_platform() {
    let w = identities(Platform::Windows).unwrap();
    assert_eq!(w.client, "LeagueClientUx.exe");
    assert_eq!(w.game, "League of Legends.exe");
    let m = identities(Platform::MacOs).unwrap();
    assert_eq!(m.client, "LeagueClientUx");
    assert_eq!(m.game, "League of Legends");
    assert!(matches!(identities(Platform::Unsupported), Err(Error::UnsupportedPlatform)));
}

#[test]
fn builds_address_and_header() {
    let (address, header) = credentials("2999", "abc");
    assert_eq!(address, "127.0.0.1:2999");
    assert_eq!(header, "Basic cmlvdDphYmM=");
}

#[test]
fn strategy_for_each_case() {
    assert_eq!(select_strategy(MatchKind::Client, false), Strategy::CommandLine);
    assert_eq!(select_strategy(MatchKind::Client, true), Strategy::LockFileBesideExe);
    assert_eq!(select_strategy(MatchKind::Game, false), Strategy::LockFileAboveExe);
    assert_eq!(select_strategy(MatchKind::Game, true), Strategy::LockFileAboveExe);
}

#[test]
fn strips_prefix() {
    assert_eq!(strip_prefix("--app-port=1234", "--app-port="), Some("1234".to_string()));
    assert_eq!(strip_prefix("--app-port", "--app-port="), None);
    assert_eq!(strip_prefix("x--app-port=1", "--app-port="), None);
}

#[test]
fn finds_first_target() {
    let procs = vec![record("explorer.exe", None, &[]), game(), client(&[])];
    assert_eq!(find_process(&ids(), &procs), Some(1));
    assert_eq!(find_process(&ids(), &vec![record("explorer.exe", None, &[])]), None);
}

#[test]
fn first_prefix_occurrence_wins() {
    let args = vec![
        "--app-port=1".to_string(),
        "--remoting-auth-token=first".to_string(),
        "--app-port=2".to_string(),
        "--remoting-auth-token=second".to_string(),
    ];
    assert_eq!(scan_command_line(&args), Ok(("1".to_string(), "first".to_string())));
}

#[test]
fn nothing_running() {
    let procs = vec![record("explorer.exe", Some("C:/explorer.exe"), &[])];
    assert!(matches!(start_discovery(&ids(), &procs, false), Err(Error::LCUProcessNotRunning)));
    assert!(matches!(start_discovery(&ids(), &procs, true), Err(Error::LCUProcessNotRunning)));
    assert!(matches!(start_discovery(&ids(), &vec![], false), Err(Error::LCUProcessNotRunning)));
}

#[test]
fn client_command_line() {
    let procs = vec![client(&["--remoting-auth-token=abc", "--app-port=2999"])];
    let (address, header) = ready(start_discovery(&ids(), &procs, false));
    assert_eq!(address, "127.0.0.1:2999");
    assert_eq!(header, "Basic cmlvdDphYmM=");
}

#[test]
fn client_command_line_in_any_order() {
    let procs = vec![client(&["--app-port=2999", "--other", "--remoting-auth-token=abc"])];
    let (address, header) = ready(start_discovery(&ids(), &procs, false));
    assert_eq!(address, "127.0.0.1:2999");
    assert_eq!(header, "Basic cmlvdDphYmM=");
}

#[test]
fn client_without_token_or_port() {
    let no_token = vec![client(&["--app-port=2999"])];
    assert!(matches!(start_discovery(&ids(), &no_token, false), Err(Error::AuthTokenNotFound)));
    let no_port = vec![client(&["--remoting-auth-token=abc"])];
    assert!(matches!(start_discovery(&ids(), &no_port, false), Err(Error::PortNotFound)));
    let neither = vec![client(&[])];
    assert!(matches!(start_discovery(&ids(), &neither, false), Err(Error::AuthTokenNotFound)));
}

#[test]
fn forced_client_reads_lock_file_beside_exe() {
    let procs = vec![client(&["--remoting-auth-token=abc", "--app-port=2999"])];
    assert_eq!(lock_dir(start_discovery(&ids(), &procs, true)), "/opt/riot");
}

#[test]
fn game_reads_lock_file_above_exe() {
    let procs = vec![game()];
    assert_eq!(lock_dir(start_discovery(&ids(), &procs, false)), "/opt/riot");
    assert_eq!(lock_dir(start_discovery(&ids(), &procs, true)), "/opt/riot");
}

#[test]
fn missing_exe_or_directory() {
    let no_exe = vec![record("League of Legends.exe", None, &[])];
    assert!(matches!(start_discovery(&ids(), &no_exe, false), Err(Error::LockFileNotFound)));
    let forced = vec![record("LeagueClientUx.exe", None, &["--app-port=1"])];
    assert!(matches!(start_discovery(&ids(), &forced, true), Err(Error::LockFileNotFound)));
    let at_root = vec![record("League of Legends.exe", Some("/"), &[])];
    assert!(matches!(start_discovery(&ids(), &at_root, false), Err(Error::LockFileNotFound)));
}

#[test]
fn credentials_from_lock_file_contents() {
    let (address, header) =
        credentials_from_lock_file(Some("LeagueClient:1234:2999:abcDEF123:https")).unwrap();
    assert_eq!(address, "127.0.0.1:2999");
    assert_eq!(header, "Basic cmlvdDphYmNERUYxMjM=");
    assert_eq!(credentials_from_lock_file(None), Err(Error::StdIo));
    assert_eq!(credentials_from_lock_file(Some("a:1")), Err(Error::PortNotFound));
    assert_eq!(credentials_from_lock_file(Some("a:1:2")), Err(Error::AuthTokenNotFound));
}
