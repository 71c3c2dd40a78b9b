use butter_scroll::paths::same_path;
use butter_scroll::threshold::{same_key, AppKey, AppThresholdCache, CacheEntry, ThresholdMode};

fn make_key(path: &str) -> AppKey {
    AppKey {
        exe_path: path.to_string(),
        exe_mtime: None,
    }
}

#[test]
fn unknown_app_returns_default() {
    let cache = AppThresholdCache::new();
    let key = make_key("C:\\Program Files\\App\\app.exe");
    assert!((cache.get_threshold(Some(&key)) as f64 - 1.0).abs() < f64::EPSILON);
    // Also test the None path
    assert!((cache.get_threshold(None) as f64 - 1.0).abs() < f64::EPSILON);
}

#[test]
fn legacy_app_returns_120() {
    let mut cache = AppThresholdCache::new();
    let key = make_key("C:\\legacy\\old.exe");
    cache.set_mode(key.clone(), ThresholdMode::Legacy120);
    assert!((cache.get_threshold(Some(&key)) as f64 - 120.0).abs() < f64::EPSILON);
}

#[test]
fn smooth_app_returns_1() {
    let mut cache = AppThresholdCache::new();
    let key = make_key("C:\\modern\\smooth.exe");
    cache.set_mode(key.clone(), ThresholdMode::SmoothOk);
    assert!((cache.get_threshold(Some(&key)) as f64 - 1.0).abs() < f64::EPSILON);
}

#[test]
fn start_detecting_prevents_duplicate() {
    let mut cache = AppThresholdCache::new();
    let key = make_key("/usr/bin/firefox");

    // First call: Unknown → Detecting, returns true
    assert!(cache.start_detecting(key.clone()));
    assert_eq!(cache.get_mode(&key), Some(&ThresholdMode::Detecting));

    // Second call: already Detecting, returns false
    assert!(!cache.start_detecting(key.clone()));

    // Also blocked after resolution
    cache.set_mode(key.clone(), ThresholdMode::SmoothOk);
    assert!(!cache.start_detecting(key));
}

#[test]
fn detecting_uses_default_threshold() {
    let mut cache = AppThresholdCache::new();
    let key = make_key("/opt/app/bin");
    cache.set_mode(key.clone(), ThresholdMode::Detecting);
    assert!((cache.get_threshold(Some(&key)) as f64 - 1.0).abs() < f64::EPSILON);
}

#[test]
fn threshold_mode_values() {
    assert!((ThresholdMode::Unknown.threshold() as f64 - 1.0).abs() < f64::EPSILON);
    assert!((ThresholdMode::Detecting.threshold() as f64 - 1.0).abs() < f64::EPSILON);
    assert!((ThresholdMode::SmoothOk.threshold() as f64 - 1.0).abs() < f64::EPSILON);
    assert!((ThresholdMode::Legacy120.threshold() as f64 - 120.0).abs() < f64::EPSILON);
}

#[test]
fn unknown_mode_can_be_detected_again() {
    let mut cache = AppThresholdCache::new();
    let key = make_key("C:\\apps\\retry.exe");
    cache.set_mode(key.clone(), ThresholdMode::Unknown);
    assert!(cache.start_detecting(key.clone()));
    assert_eq!(cache.get_mode(&key), Some(&ThresholdMode::Detecting));
}

#[test]
fn keys_differ_by_mtime() {
    let mut cache = AppThresholdCache::new();
    let old = AppKey { exe_path: "C:\\a.exe".to_string(), exe_mtime: Some(1) };
    let new = AppKey { exe_path: "C:\\a.exe".to_string(), exe_mtime: Some(2) };
    cache.set_mode(old.clone(), ThresholdMode::Legacy120);
    assert_eq!(cache.get_mode(&new), None);
    assert_eq!(cache.get_threshold(Some(&new)), 1);
    assert_eq!(cache.get_threshold(Some(&old)), 120);
    assert_eq!(cache.len(), 1);
}

#[test]
fn set_mode_replaces_without_duplicating() {
    let mut cache = AppThresholdCache::new();
    let key = make_key("C:\\x.exe");
    cache.set_mode(key.clone(), ThresholdMode::SmoothOk);
    cache.set_mode(key.clone(), ThresholdMode::Legacy120);
    assert_eq!(cache.len(), 1);
    assert_eq!(cache.get_mode(&key), Some(&ThresholdMode::Legacy120));
}

#[test]
fn persistable_entries_skip_transient_and_untimed() {
    let mut cache = AppThresholdCache::new();
    cache.set_mode(
        AppKey { exe_path: "C:\\smooth.exe".to_string(), exe_mtime: Some(10) },
        ThresholdMode::SmoothOk,
    );
    cache.set_mode(make_key("C:\\untimed.exe"), ThresholdMode::Legacy120);
    cache.set_mode(
        AppKey { exe_path: "C:\\unknown.exe".to_string(), exe_mtime: Some(11) },
        ThresholdMode::Unknown,
    );
    cache.set_mode(
        AppKey { exe_path: "C:\\detecting.exe".to_string(), exe_mtime: Some(12) },
        ThresholdMode::Detecting,
    );
    let entries = cache.persistable_entries();
    assert_eq!(entries.len(), 1);
    assert_eq!(entries[0].exe_path, "C:\\smooth.exe");
    assert_eq!(entries[0].exe_mtime, 10);
    assert_eq!(entries[0].mode, ThresholdMode::SmoothOk);
}

#[test]
fn entries_round_trip_when_unchanged() {
    let mut cache = AppThresholdCache::new();
    let k1 = AppKey { exe_path: "C:\\smooth.exe".to_string(), exe_mtime: Some(100) };
    let k2 = AppKey { exe_path: "C:\\legacy.exe".to_string(), exe_mtime: Some(200) };
    cache.set_mode(k1.clone(), ThresholdMode::SmoothOk);
    cache.set_mode(k2.clone(), ThresholdMode::Legacy120);
    let entries = cache.persistable_entries();
    let observed: Vec<Option<u64>> = entries.iter().map(|e| Some(e.exe_mtime)).collect();
    let loaded = AppThresholdCache::from_entries(entries, observed);
    assert_eq!(loaded.get_mode(&k1), Some(&ThresholdMode::SmoothOk));
    assert_eq!(loaded.get_mode(&k2), Some(&ThresholdMode::Legacy120));
    assert_eq!(loaded.len(), 2);
}

#[test]
fn stale_entries_are_skipped_on_load() {
    let entries = vec![
        CacheEntry { exe_path: "C:\\gone.exe".to_string(), exe_mtime: 999, mode: ThresholdMode::Legacy120 },
        CacheEntry { exe_path: "C:\\updated.exe".to_string(), exe_mtime: 5, mode: ThresholdMode::SmoothOk },
        CacheEntry { exe_path: "C:\\same.exe".to_string(), exe_mtime: 7, mode: ThresholdMode::Legacy120 },
    ];
    let observed = vec![None, Some(6), Some(7)];
    let loaded = AppThresholdCache::from_entries(entries, observed);
    assert_eq!(loaded.len(), 1);
    let same = AppKey { exe_path: "C:\\same.exe".to_string(), exe_mtime: Some(7) };
    assert_eq!(loaded.get_mode(&same), Some(&ThresholdMode::Legacy120));
}

#[test]
fn keys_compare_paths_by_components() {
    assert!(same_path(r"C:\apps\tool.exe", "C:/apps/tool.exe"));
    assert!(same_path(r"C:\apps\\.\tool.exe", r"C:\apps\tool.exe"));
    assert!(same_path(r"c:\apps\tool.exe", r"C:\apps\tool.exe"));
    assert!(same_path(r"C:\apps\", r"C:\apps"));
    assert!(!same_path(r"C:\apps\tool.exe", r"C:\apps\Tool.exe"));
    assert!(!same_path(r"C:\apps", r"C:apps"));
    assert!(!same_path(r"\apps", "apps"));
    assert!(!same_path(r"\\server\share", r"\server\share"));

    let mut cache = AppThresholdCache::new();
    cache.set_mode(make_key(r"C:\apps\legacy.exe"), ThresholdMode::Legacy120);
    assert!(same_key(&make_key("C:/apps//legacy.exe"), &make_key(r"C:\apps\legacy.exe")));
    assert_eq!(cache.get_threshold(Some(&make_key("C:/apps//legacy.exe"))), 120);
}

#[test]
fn cache_keeps_the_first_spelling_of_a_path() {
    let mut cache = AppThresholdCache::new();
    let first = AppKey { exe_path: r"C:\apps\tool.exe".to_string(), exe_mtime: Some(7) };
    let second = AppKey { exe_path: "C:/apps//tool.exe".to_string(), exe_mtime: Some(7) };
    cache.set_mode(first, ThresholdMode::SmoothOk);
    cache.set_mode(second, ThresholdMode::Legacy120);
    assert_eq!(cache.len(), 1);
    let saved = cache.persistable_entries();
    assert_eq!(saved.len(), 1);
    assert_eq!(saved[0].exe_path, r"C:\apps\tool.exe");
    assert_eq!(saved[0].mode, ThresholdMode::Legacy120);
}
