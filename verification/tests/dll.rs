use bucatini::ndi::dll::{pick_runtime_dir, resolve_runtime_dir};

#[test]
fn picks_first_present_candidate() {
    let c = [
        None,
        Some(r"C:\Program Files\NDI\NDI 6 Runtime\v6".to_string()),
        Some(r"C:\old\v5".to_string()),
    ];
    assert_eq!(
        pick_runtime_dir(&c),
        Some(r"C:\Program Files\NDI\NDI 6 Runtime\v6".to_string())
    );
}

#[test]
fn skips_empty_and_whitespace_values() {
    let c = [
        Some(String::new()),
        Some("   ".to_string()),
        Some(r"C:\old\v4".to_string()),
    ];
    assert_eq!(pick_runtime_dir(&c), Some(r"C:\old\v4".to_string()));
}

#[test]
fn none_when_all_absent() {
    let c = [None, None];
    assert_eq!(pick_runtime_dir(&c), None);
}

#[test]
fn resolve_prefers_v6_over_older() {
    let get = |k: &str| match k {
        "NDI_RUNTIME_DIR_V6" => Some(r"C:\v6".to_string()),
        "NDI_RUNTIME_DIR_V5" => Some(r"C:\v5".to_string()),
        _ => None,
    };
    assert_eq!(resolve_runtime_dir(get), Some(r"C:\v6".to_string()));
}

#[test]
fn resolve_falls_back_to_older_version() {
    let get = |k: &str| match k {
        "NDI_RUNTIME_DIR_V4" => Some(r"C:\v4".to_string()),
        _ => None,
    };
    assert_eq!(resolve_runtime_dir(get), Some(r"C:\v4".to_string()));
}

#[test]
fn resolve_none_when_unset() {
    assert_eq!(resolve_runtime_dir(|_| None), None);
}

#[test]
fn picked_value_is_kept_untrimmed() {
    let c = [Some("\t\n".to_string()), Some("  C:\\v3  ".to_string())];
    assert_eq!(pick_runtime_dir(&c), Some("  C:\\v3  ".to_string()));
}

#[test]
fn resolve_consults_oldest_last() {
    let get = |k: &str| match k {
        "NDI_RUNTIME_DIR_V6" => Some(" ".to_string()),
        "NDI_RUNTIME_DIR_V2" => Some(r"C:\v2".to_string()),
        _ => None,
    };
    assert_eq!(resolve_runtime_dir(get), Some(r"C:\v2".to_string()));
}
