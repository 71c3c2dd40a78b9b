use butter_scroll::app_filter::{
    confirm_dialog_url, toggle_app_filter_entry_in_config, AppFilterConfig, AppFilterMode,
};

fn config_with_filter(mode: AppFilterMode, list: Vec<&str>) -> Option<AppFilterConfig> {
    Some(AppFilterConfig {
        mode,
        list: list.into_iter().map(String::from).collect(),
    })
}

#[test]
fn toggle_adds_new_entry() {
    let mut config = config_with_filter(AppFilterMode::Blacklist, vec![]);

    let result =
        toggle_app_filter_entry_in_config(&mut config, "C:\\Windows\\calc.exe".to_string())
            .expect("toggle should succeed");

    assert_eq!(result.action, "added");
    assert_eq!(result.exe_path, "C:\\Windows\\calc.exe");
    assert_eq!(result.mode, "blacklist");
    assert_eq!(result.list_count, 1);
    assert_eq!(config.unwrap().list, vec!["C:\\Windows\\calc.exe"]);
}

#[test]
fn toggle_removes_existing_entry() {
    let mut config = config_with_filter(AppFilterMode::Whitelist, vec!["C:\\Windows\\calc.exe"]);

    let result =
        toggle_app_filter_entry_in_config(&mut config, "C:\\Windows\\calc.exe".to_string())
            .expect("toggle should succeed");

    assert_eq!(result.action, "removed");
    assert_eq!(result.exe_path, "C:\\Windows\\calc.exe");
    assert_eq!(result.mode, "whitelist");
    assert_eq!(result.list_count, 0);
    assert!(config.unwrap().list.is_empty());
}

#[test]
fn toggle_matches_case_insensitively() {
    let mut config =
        config_with_filter(AppFilterMode::Blacklist, vec!["c:\\windows\\notepad.exe"]);

    let result =
        toggle_app_filter_entry_in_config(&mut config, "C:\\Windows\\NOTEPAD.EXE".to_string())
            .expect("toggle should succeed");

    assert_eq!(result.action, "removed");
    assert_eq!(result.list_count, 0);
    assert!(config.unwrap().list.is_empty());
}

#[test]
fn toggle_errors_when_unconfigured() {
    let mut config: Option<AppFilterConfig> = None;

    let err = toggle_app_filter_entry_in_config(&mut config, "C:\\Windows\\calc.exe".to_string())
        .expect_err("toggle should fail");

    assert_eq!(
        err,
        "App filter not configured. Please choose blacklist/whitelist mode in Settings first."
    );
}

#[test]
fn toggle_twice_restores_list() {
    let mut config = config_with_filter(AppFilterMode::Blacklist, vec!["a.exe", "b.exe"]);
    toggle_app_filter_entry_in_config(&mut config, "c.exe".to_string()).unwrap();
    assert_eq!(config.as_ref().unwrap().list, vec!["a.exe", "b.exe", "c.exe"]);
    let r = toggle_app_filter_entry_in_config(&mut config, "C.EXE".to_string()).unwrap();
    assert_eq!(r.action, "removed");
    assert_eq!(config.unwrap().list, vec!["a.exe", "b.exe"]);
}

#[test]
fn toggle_removes_every_matching_entry() {
    let mut config =
        config_with_filter(AppFilterMode::Whitelist, vec!["X.exe", "y.exe", "x.EXE"]);
    let r = toggle_app_filter_entry_in_config(&mut config, "x.exe".to_string()).unwrap();
    assert_eq!(r.action, "removed");
    assert_eq!(r.list_count, 1);
    assert_eq!(config.unwrap().list, vec!["y.exe"]);
}

#[test]
fn confirm_url_encodes_path_and_name() {
    let url = confirm_dialog_url(r"C:\Program Files\記事本.exe", "記事 本", true, "blacklist");
    assert_eq!(
        url,
        "confirm-app-filter.html?exe_path=C%3A%5CProgram%20Files%5C%E8%A8%98%E4%BA%8B%E6%9C%AC.exe&app_name=%E8%A8%98%E4%BA%8B%20%E6%9C%AC&in_list=true&mode=blacklist"
    );
    let plain = confirm_dialog_url("a-b_c.~", "n", false, "whitelist");
    assert_eq!(
        plain,
        "confirm-app-filter.html?exe_path=a-b_c.~&app_name=n&in_list=false&mode=whitelist"
    );
}
