use butter_scroll::foreground::{
    app_name_from_exe_path, capture_filtered, ForegroundApp, MockForegroundCapture,
    WindowsForegroundCapture,
};

const CURRENT_EXE: &str = r"C:\Program Files\butter-scroll\butter-scroll.exe";

#[test]
fn normal_capture_returns_some() {
    let mock = MockForegroundCapture {
        result: Some(ForegroundApp {
            exe_path: r"C:\Windows\System32\notepad.exe".to_string(),
            app_name: "notepad".to_string(),
        }),
    };

    let app = capture_filtered(&mock, Some(CURRENT_EXE)).unwrap();
    assert_eq!(app.exe_path, r"C:\Windows\System32\notepad.exe");
    assert_eq!(app.app_name, "notepad");
}

#[test]
fn app_name_is_extracted_from_exe_path() {
    let app =
        ForegroundApp::from_exe_path(r"C:\Windows\System32\notepad.exe".to_string()).unwrap();

    assert_eq!(app.app_name, "notepad");
}

#[test]
fn self_detection_returns_none_for_current_exe() {
    let mock = MockForegroundCapture {
        result: Some(ForegroundApp::from_exe_path(CURRENT_EXE.to_string()).unwrap()),
    };

    assert!(capture_filtered(&mock, Some(CURRENT_EXE)).is_none());
}

#[test]
fn self_detection_ignores_ascii_case() {
    let mock = MockForegroundCapture {
        result: Some(ForegroundApp::from_exe_path(CURRENT_EXE.to_ascii_uppercase()).unwrap()),
    };
    assert!(capture_filtered(&mock, Some(CURRENT_EXE)).is_none());
    // Unknown own path: nothing is filtered.
    assert!(capture_filtered(&mock, None).is_some());
}

#[test]
fn app_name_edge_cases() {
    assert_eq!(app_name_from_exe_path("/usr/bin/firefox"), "firefox");
    assert_eq!(app_name_from_exe_path("archive.tar.gz"), "archive.tar");
    assert_eq!(app_name_from_exe_path(r"C:\dir\.hidden"), ".hidden");
    assert_eq!(app_name_from_exe_path(r"C:\dir\name."), "name");
    assert_eq!(app_name_from_exe_path(r"C:\dir\"), "");
    assert_eq!(app_name_from_exe_path(r"C:\dir\.."), "");
    assert_eq!(app_name_from_exe_path("."), "");
    assert_eq!(app_name_from_exe_path(""), "");
    assert_eq!(app_name_from_exe_path(r"D:\遊戲\捲動.exe"), "捲動");
}

#[test]
fn stub_capture_reports_nothing() {
    let cap = WindowsForegroundCapture::new();
    assert!(capture_filtered(&cap, None).is_none());
}

#[test]
fn app_name_ignores_drive_prefix() {
    assert_eq!(app_name_from_exe_path("C:notepad.exe"), "notepad");
    assert_eq!(app_name_from_exe_path(r"D:\x\C:tool.exe"), "tool");
    assert_eq!(app_name_from_exe_path("C:"), "");
    assert_eq!(app_name_from_exe_path(r"C:\Windows\notepad.exe"), "notepad");
}
