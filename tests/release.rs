use desktopmate_installer::release::{
    asset_matches, resolve_release, Asset, Release, MELONLOADER_FALLBACK_URL,
};
use desktopmate_installer::text::{ends_with, eq_ignore_ascii_case, trim};

fn asset(name: &str, url: &str) -> Asset {
    Asset { name: name.to_string(), browser_download_url: url.to_string() }
}

fn release(tag: &str, assets: Vec<Asset>) -> Release {
    Release { tag_name: tag.to_string(), assets }
}

#[test]
fn filter_matches_asset_name_ignoring_ascii_case() {
    let r = release(
        "v1.4",
        vec![asset("other.zip", "https://x/other"), asset("customavatarloader.ZIP", "https://x/cal")],
    );
    let info = resolve_release(r, "desktopmate-custom-avatar-loader", Some("CustomAvatarLoader.zip")).unwrap();
    assert_eq!(info.tag_name, "v1.4");
    assert_eq!(info.download_url, "https://x/cal");
}

#[test]
fn first_accepted_asset_wins() {
    let r = release(
        "v3",
        vec![asset("a.zip", "https://x/1"), asset("A.ZIP", "https://x/2")],
    );
    let info = resolve_release(r, "repo", Some("a.zip")).unwrap();
    assert_eq!(info.download_url, "https://x/1");
}

#[test]
fn without_filter_first_zip_is_taken() {
    let r = release(
        "v2",
        vec![asset("notes.txt", "https://x/n"), asset("Pack.ZIP", "https://x/p"), asset("b.zip", "https://x/b")],
    );
    let info = resolve_release(r, "repo", None).unwrap();
    assert_eq!(info.download_url, "https://x/p");
}

#[test]
fn mod_loader_repository_falls_back_to_fixed_link() {
    let r = release("v0.7", vec![asset("readme.md", "https://x/r")]);
    let info = resolve_release(r, "melonloader", Some("MelonLoader.x64.zip")).unwrap();
    assert_eq!(info.tag_name, "v0.7");
    assert_eq!(info.download_url, MELONLOADER_FALLBACK_URL);
}

#[test]
fn no_accepted_asset_elsewhere_resolves_to_none() {
    let r = release("v1", vec![asset("readme.md", "https://x/r")]);
    assert!(resolve_release(r, "some-repo", None).is_none());
    let empty = release("v1", vec![]);
    assert!(resolve_release(empty, "some-repo", Some("x.zip")).is_none());
}

#[test]
fn asset_filter_and_extension_checks() {
    assert!(asset_matches("Mod.Zip", None));
    assert!(!asset_matches("mod.zip.txt", None));
    assert!(asset_matches("MOD.zip", Some("mod.ZIP")));
    assert!(!asset_matches("mod.zip", Some("mod2.zip")));
}

#[test]
fn ascii_case_comparison() {
    assert!(eq_ignore_ascii_case("MelonLoader", "MELONLOADER"));
    assert!(!eq_ignore_ascii_case("MelonLoader", "MelonLoade"));
    assert!(!eq_ignore_ascii_case("é", "É"));
    assert!(eq_ignore_ascii_case("", ""));
}

#[test]
fn suffix_check() {
    assert!(ends_with("archive.zip", ".zip"));
    assert!(!ends_with("zip", ".zip"));
    assert!(ends_with("x", ""));
}

#[test]
fn first_accepted_asset_with_empty_link_is_kept() {
    let r = release("v5", vec![asset("a.zip", ""), asset("b.zip", "https://x/b")]);
    let info = resolve_release(r, "other", Some("a.zip")).unwrap();
    assert_eq!(info.download_url, "");
    let r = release("v5", vec![asset("A.ZIP", ""), asset("b.zip", "https://x/b")]);
    let info = resolve_release(r, "MelonLoader", None).unwrap();
    assert_eq!(info.download_url, "");
}

#[test]
fn trim_removes_unicode_white_space() {
    assert_eq!(trim("\u{3000}\t v1.0 \u{a0}\n"), "v1.0");
    assert_eq!(trim(" \u{2009} "), "");
    assert_eq!(trim("a b"), "a b");
}
