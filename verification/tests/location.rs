use butter_scroll::location::{
    config_file_path, data_dir, join_path, migrates, threshold_cache_file_path,
    update_check_allowed,
};

#[test]
fn installed_copy_uses_app_data_folder() {
    let dir = data_dir(false, Some("C:\\Users\\me\\AppData\\Roaming"), "D:\\tools\\bs");
    assert_eq!(dir, "C:\\Users\\me\\AppData\\Roaming\\com.butter-scroll.app");
    assert_eq!(
        config_file_path(&dir),
        "C:\\Users\\me\\AppData\\Roaming\\com.butter-scroll.app\\config.toml"
    );
    assert_eq!(
        threshold_cache_file_path(&dir),
        "C:\\Users\\me\\AppData\\Roaming\\com.butter-scroll.app\\threshold_cache.json"
    );
}

#[test]
fn portable_copy_stays_beside_executable() {
    let dir = data_dir(true, Some("C:\\Users\\me\\AppData\\Roaming"), "D:\\tools\\bs");
    assert_eq!(dir, "D:\\tools\\bs");
    assert_eq!(config_file_path(&dir), "D:\\tools\\bs\\config.toml");
}

#[test]
fn missing_app_data_falls_back_to_executable_folder() {
    assert_eq!(data_dir(false, None, "D:\\tools\\bs"), "D:\\tools\\bs");
}

#[test]
fn join_adds_separator_only_when_needed() {
    assert_eq!(join_path("C:\\data\\", "x.toml"), "C:\\data\\x.toml");
    assert_eq!(join_path("C:/data/", "x.toml"), "C:/data/x.toml");
    assert_eq!(join_path("C:", "x.toml"), "C:x.toml");
    assert_eq!(join_path("", "x.toml"), "x.toml");
    assert_eq!(join_path("C:\\data", "x.toml"), "C:\\data\\x.toml");
}

#[test]
fn migration_only_for_installed_copy_with_old_file() {
    assert!(migrates(false, false, true));
    assert!(!migrates(true, false, true));
    assert!(!migrates(false, true, true));
    assert!(!migrates(false, false, false));
}

#[test]
fn update_check_refused_in_portable_mode() {
    assert_eq!(
        update_check_allowed(true),
        Err("Auto-update is not available in portable mode.".to_string())
    );
    assert_eq!(update_check_allowed(false), Ok(()));
}
