use tvh_client::guide::Poll;
use tvh_client::update::{
    api_error_with, check_answer, is_version_newer, latest_url, release_info, repo_url,
    unexpected_answer, update_script, Asset, CheckView, ReleaseInfo, UpdatePanel, ASSET_NAME,
    CURRENT_VERSION, REPO_NAME, REPO_OWNER,
};

#[test]
fn trailing_zero_changes_no_comparison() {
    for (a, b) in [("1.2", "1.1"), ("1.1", "1.2"), ("1", "1"), ("", ""), ("1.beta", "1.0.1")] {
        let expected = is_version_newer(a, b);
        assert_eq!(is_version_newer(&format!("{a}.0"), b), expected);
        assert_eq!(is_version_newer(a, &format!("{b}.0")), expected);
    }
}

#[test]
fn versions_are_compared_by_their_numbers() {
    assert!(is_version_newer("0.2.0", "0.1.9"));
    assert!(is_version_newer("0.10.0", "0.9.0"));
    assert!(is_version_newer("1.0.1", "1.0"));
    assert!(!is_version_newer("1.0", "1.0.0"));
    assert!(!is_version_newer("1.0.0", "1.0"));
    assert!(!is_version_newer("0.1.0", "0.1.1"));
    // What is no number counts as zero.
    assert!(!is_version_newer("beta", "0"));
    assert!(is_version_newer("1.beta.1", "1.0.0"));
    assert!(!is_version_newer("", ""));
    assert!(!is_version_newer("18446744073709551616.0", "1"));
}

#[test]
fn newer_is_an_order() {
    let versions = ["0", "0.1", "0.1.1", "0.2", "1.x.3", "1.0.4", "10"];
    for (i, a) in versions.iter().enumerate() {
        for (j, b) in versions.iter().enumerate() {
            assert_eq!(is_version_newer(a, b), i > j);
        }
    }
}

fn assets(names: &[&str]) -> Vec<Asset> {
    names
        .iter()
        .map(|n| Asset { name: n.to_string(), download_url: format!("u/{n}") })
        .collect()
}

#[test]
fn release_is_read() {
    let r = release_info("v0.2.0", &assets(&["other", ASSET_NAME]), "0.1.0").unwrap();
    assert_eq!((r.version.as_str(), r.is_newer), ("0.2.0", true));
    assert_eq!(r.download_url, "u/TVH-Client.exe");
    let r = release_info("vv0.1.0", &assets(&[ASSET_NAME]), "0.1.0").unwrap();
    assert_eq!((r.version.as_str(), r.is_newer), ("0.1.0", false));
    assert_eq!(
        release_info("v0.2.0", &assets(&["other"]), "0.1.0").unwrap_err(),
        "V release v0.2.0 chybí soubor TVH-Client.exe"
    );
}

#[test]
fn addresses_of_the_project() {
    assert_eq!((REPO_OWNER, REPO_NAME, CURRENT_VERSION), ("DaTTcz", "TVH-Client", "0.1.0"));
    assert_eq!(latest_url(), "https://api.github.com/repos/DaTTcz/TVH-Client/releases/latest");
    assert_eq!(repo_url(), "https://github.com/DaTTcz/TVH-Client");
}

#[test]
fn answers_are_judged_by_their_status() {
    assert_eq!(check_answer(200, "b".to_string()).unwrap(), "b");
    assert_eq!(check_answer(299, "b".to_string()).unwrap(), "b");
    assert_eq!(
        check_answer(403, "slow".to_string()).unwrap_err(),
        "GitHub API vrátilo 403 Forbidden: slow"
    );
    assert_eq!(
        check_answer(300, String::new()).unwrap_err(),
        "GitHub API vrátilo 300 Multiple Choices: "
    );
    assert_eq!(
        api_error_with(599, None, "x"),
        "GitHub API vrátilo 599 <unknown status code>: x"
    );
    assert_eq!(unexpected_answer("e"), "Nečekaná odpověď GitHubu: e");
}

fn release(is_newer: bool) -> ReleaseInfo {
    ReleaseInfo { version: "9.9".to_string(), is_newer, download_url: String::new() }
}

#[test]
fn check_is_shown() {
    let mut p = UpdatePanel::new();
    assert!(matches!(p.status(), CheckView::Nothing));
    p.start_check();
    assert!(p.checking && p.waiting);
    p.on_check(Poll::Empty);
    assert!(p.checking);
    p.on_check(Poll::Ready(Ok(release(true))));
    assert!(!p.checking && !p.waiting);
    assert_eq!(p.badge().unwrap(), "🆕 Nová verze 9.9 k dispozici");
    assert!(matches!(p.status(), CheckView::Newer(t) if t == "Dostupná nová verze: 9.9"));
    p.on_check(Poll::Ready(Ok(release(false))));
    assert!(p.badge().is_none());
    assert!(matches!(p.status(), CheckView::Latest));
    p.on_check(Poll::Ready(Err("off".to_string())));
    assert!(p.badge().is_none());
    assert!(matches!(p.status(), CheckView::Failed(t) if t == "off"));
    p.start_check();
    p.on_check(Poll::Closed);
    assert!(!p.checking && matches!(p.status(), CheckView::Nothing));
}

#[test]
fn installation_tells_only_of_failure() {
    let mut p = UpdatePanel::new();
    p.start_install();
    assert!(p.installing && p.install_waiting && !p.checking);
    p.on_install(Poll::Empty);
    assert!(p.installing);
    p.on_install(Poll::Ready("failed".to_string()));
    assert!(!p.installing && !p.install_waiting);
    assert_eq!(p.install_message.as_deref(), Some("failed"));
    p.start_install();
    assert!(p.install_message.is_none());
    p.on_install(Poll::Closed);
    assert!(!p.installing);
}

#[test]
fn script_replaces_the_program() {
    let expected = r#"@echo off
setlocal
set "LOG=L"
echo [%date% %time%] start >>"%LOG%"
timeout /t 2 /nobreak >nul
move /y "N" "C" >>"%LOG%" 2>&1
if errorlevel 1 (
    echo [%date% %time%] FATAL: move selhal, errorlevel %errorlevel% - stara appka je nedotcena >>"%LOG%"
    exit /b 1
)
echo [%date% %time%] move OK, spoustim novou appku >>"%LOG%"
start "" "C"
echo [%date% %time%] hotovo, uklizim >>"%LOG%"
del "%LOG%" >nul 2>&1
del "%~f0"
"#;
    assert_eq!(update_script("L", "N", "C"), expected);
}
