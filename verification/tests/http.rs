use easytier_service::http::{
    asset_suits, easytier_releases, filter_release_with_platform, resolve_url,
};
use easytier_service::model::{GAsset, GRelease};
use easytier_service::platform::Platform;

fn asset(name: &str) -> GAsset {
    GAsset {
        name: String::from(name),
        size: 10,
        download_count: 3,
        browser_download_url: format!("https://example.org/{}", name),
        created_at: String::from("2024-01-01T00:00:00Z"),
        updated_at: String::from("2024-01-02T00:00:00Z"),
    }
}

fn release(tag: &str, names: &[&str]) -> GRelease {
    GRelease {
        tag_name: String::from(tag),
        name: format!("Release {}", tag),
        prerelease: false,
        draft: false,
        created_at: String::from("2024-01-01T00:00:00Z"),
        published_at: String::from("2024-01-03T00:00:00Z"),
        id: 7,
        assets: names.iter().map(|n| asset(n)).collect(),
    }
}

fn names(assets: &[GAsset]) -> Vec<&str> {
    assets.iter().map(|a| a.name.as_str()).collect()
}

#[test]
fn platform_filter_keeps_the_asset_of_the_host() {
    let host = Platform::new("linux", "x86_64");
    let assets = vec![
        asset("app-linux-x86_64.zip"),
        asset("app-windows-x86_64.zip"),
        asset("app-gui-linux-x86_64.zip"),
    ];
    let kept = filter_release_with_platform(assets, &host);
    assert_eq!(names(&kept), vec!["app-linux-x86_64.zip"]);
}

#[test]
fn platform_filter_keeps_order_and_fields() {
    let host = Platform::new("windows", "x86_64");
    let assets = vec![
        asset("b-windows-x86_64.zip"),
        asset("a-linux-x86_64.zip"),
        asset("a-windows-x86_64.zip"),
        asset("a-windows-aarch64.zip"),
    ];
    let kept = filter_release_with_platform(assets, &host);
    assert_eq!(names(&kept), vec!["b-windows-x86_64.zip", "a-windows-x86_64.zip"]);
    assert_eq!(kept[0].size, 10);
    assert_eq!(kept[0].download_count, 3);
    assert_eq!(kept[0].browser_download_url, "https://example.org/b-windows-x86_64.zip");
    assert_eq!(kept[1].created_at, "2024-01-01T00:00:00Z");
    assert_eq!(kept[1].updated_at, "2024-01-02T00:00:00Z");
}

#[test]
fn platform_filter_of_nothing_is_nothing() {
    let host = Platform::new("linux", "x86_64");
    assert!(filter_release_with_platform(vec![], &host).is_empty());
    assert!(filter_release_with_platform(vec![asset("app-macos-aarch64.zip")], &host).is_empty());
}

#[test]
fn the_gui_marker_excludes_an_asset_wherever_it_stands() {
    let host = Platform::new("linux", "x86_64");
    assert!(asset_suits("easytier-linux-x86_64-v2.zip", &host));
    assert!(!asset_suits("easytier-gui-linux-x86_64.zip", &host));
    assert!(!asset_suits("easytier-linux-x86_64-gui.zip", &host));
    assert!(!asset_suits("guilinux-x86_64", &host));
    assert!(asset_suits("GUI-linux-x86_64", &host));
    assert!(!asset_suits("easytier-linux-aarch64.zip", &host));
    assert!(!asset_suits("easytier-Linux-x86_64.zip", &host));
}

#[test]
fn releases_are_narrowed_one_by_one_when_asked() {
    let host = Platform::new("linux", "x86_64");
    let catalog = vec![
        release("v2", &["app-linux-x86_64.zip", "app-windows-x86_64.zip"]),
        release("v1", &["app-windows-x86_64.zip"]),
    ];
    let narrow = easytier_releases(true, catalog, &host);
    assert_eq!(narrow.len(), 2);
    assert_eq!(narrow[0].tag_name, "v2");
    assert_eq!(narrow[0].name, "Release v2");
    assert_eq!(narrow[0].id, 7);
    assert!(!narrow[0].prerelease);
    assert!(!narrow[0].draft);
    assert_eq!(narrow[0].created_at, "2024-01-01T00:00:00Z");
    assert_eq!(narrow[0].published_at, "2024-01-03T00:00:00Z");
    assert_eq!(names(&narrow[0].assets), vec!["app-linux-x86_64.zip"]);
    assert_eq!(narrow[1].tag_name, "v1");
    assert!(narrow[1].assets.is_empty());
}

#[test]
fn releases_stay_whole_when_not_narrowed() {
    let host = Platform::new("linux", "x86_64");
    let catalog = vec![release("v2", &["app-linux-x86_64.zip", "app-windows-x86_64.zip"])];
    let whole = easytier_releases(false, catalog, &host);
    assert_eq!(whole.len(), 1);
    assert_eq!(
        names(&whole[0].assets),
        vec!["app-linux-x86_64.zip", "app-windows-x86_64.zip"]
    );
}

#[test]
fn a_mirror_goes_before_the_address() {
    assert_eq!(
        resolve_url("https://github.com/a/b.zip", Some("https://ghp.ci")),
        "https://ghp.ci/https://github.com/a/b.zip"
    );
    assert_eq!(
        resolve_url("https://github.com/a/b.zip", None),
        "https://github.com/a/b.zip"
    );
    assert_eq!(resolve_url("", Some("m")), "m/");
}

#[test]
fn the_mirror_constant_is_the_proxy() {
    assert_eq!(easytier_service::constant::GITHUB_PROXY, "https://ghp.ci");
    assert_eq!(easytier_service::constant::AUTH_FILE_NAME, ".auth_token");
}
