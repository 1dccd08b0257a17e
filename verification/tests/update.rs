use fast_down::update::{
    check_for_update, compare_versions, download_url, get_arch, get_os_name, has_asset, judge_cache,
    parse_version, CacheVerdict,
};

#[test]
fn newer_versions_are_found() {
    assert!(compare_versions("1.2.3", "1.2.4"));
    assert!(compare_versions("1.2.3", "1.3.0"));
    assert!(compare_versions("1.2.3", "2.0.0"));
    assert!(compare_versions("1.9", "1.10"));
    assert!(compare_versions("0.0.1", "0.0.2"));
}

#[test]
fn equal_and_older_versions_are_not_newer() {
    assert!(!compare_versions("1.2.3", "1.2.3"));
    assert!(!compare_versions("1.2.4", "1.2.3"));
    assert!(!compare_versions("2.0.0", "1.9.9"));
    assert!(!compare_versions("1.10", "1.9"));
}

#[test]
fn only_common_parts_are_compared() {
    assert!(!compare_versions("1.2", "1.2.1"));
    assert!(!compare_versions("1.2.1", "1.2"));
    assert!(compare_versions("1.2.9", "1.3"));
    assert!(!compare_versions("", "1.0"));
    assert!(!compare_versions("1.0", ""));
}

#[test]
fn parts_that_are_no_numbers_do_not_count() {
    assert_eq!(parse_version("1.2.3"), vec![1, 2, 3]);
    assert_eq!(parse_version("1.x.3"), vec![1, 3]);
    assert_eq!(parse_version("v1.2"), vec![2]);
    assert_eq!(parse_version("1.2-beta.4"), vec![1, 4]);
    assert_eq!(parse_version(""), Vec::<u32>::new());
    assert_eq!(parse_version("1..2"), vec![1, 2]);
    assert!(compare_versions("1.x.3", "1.4"));
    assert!(compare_versions("v1.2", "v1.3.1"));
    assert!(!compare_versions("v1.3", "v1.2.1"));
    assert!(compare_versions("v1.2", "v2.3"));
}

#[test]
fn update_check_strips_the_v() {
    assert_eq!(check_for_update("v1.2.3", "v1.3.0"), Some("1.3.0".to_string()));
    assert_eq!(check_for_update("1.2.3", "v1.3.0"), Some("1.3.0".to_string()));
    assert_eq!(check_for_update("v1.3.0", "v1.3.0"), None);
    assert_eq!(check_for_update("2.0.0", "1.9.0"), None);
}

#[test]
fn cache_is_fresh_for_three_days() {
    let latest = || "1.5.0".to_string();
    assert_eq!(
        judge_cache(1_000_000, Some((1_000_000 - 259_199, latest())), "1.4.0"),
        CacheVerdict::Fresh(Some(latest()))
    );
    assert_eq!(
        judge_cache(1_000_000, Some((1_000_000 - 259_200, latest())), "1.4.0"),
        CacheVerdict::Stale
    );
    assert_eq!(
        judge_cache(1_000_000, Some((1_000_000, latest())), "1.5.0"),
        CacheVerdict::Fresh(None)
    );
    assert_eq!(judge_cache(1_000_000, None, "1.4.0"), CacheVerdict::Stale);
    assert_eq!(
        judge_cache(10, Some((20, latest())), "1.4.0"),
        CacheVerdict::Stale
    );
}

#[test]
fn server_names_of_systems() {
    assert_eq!(get_os_name("windows"), "windows");
    assert_eq!(get_os_name("macos"), "macos");
    assert_eq!(get_os_name("linux"), "linux");
    assert_eq!(get_os_name("freebsd"), "unknown");
    assert_eq!(get_arch("x86_64"), "64bit");
    assert_eq!(get_arch("x86"), "32bit");
    assert_eq!(get_arch("aarch64"), "arm64");
    assert_eq!(get_arch("arm"), "unknown");
}

#[test]
fn assets_and_urls() {
    let assets = vec![
        ("windows".to_string(), "64bit".to_string()),
        ("linux".to_string(), "arm64".to_string()),
    ];
    assert!(has_asset(&assets, "linux", "arm64"));
    assert!(has_asset(&assets, "windows", "64bit"));
    assert!(!has_asset(&assets, "linux", "64bit"));
    assert!(!has_asset(&Vec::new(), "linux", "64bit"));
    assert_eq!(
        download_url("linux", "64bit"),
        "https://fast-down-update.s121.top/cli/download/linux/64bit"
    );
}
