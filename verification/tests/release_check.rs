use cursor2api::release::{
    check_for_update, download_url, parse_version, update_prompt, GithubAsset, GithubRelease,
    ReleaseSource,
};

/// Reads a Releases listing the way the Console's GitHub source does.
fn releases_from_json(text: &str) -> Vec<GithubRelease> {
    let value: serde_json::Value = serde_json::from_str(text).expect("valid Releases JSON");
    value
        .as_array()
        .expect("a JSON array")
        .iter()
        .map(|row| GithubRelease {
            tag_name: row["tag_name"].as_str().unwrap_or_default().to_string(),
            draft: row["draft"].as_bool().unwrap_or(false),
            prerelease: row["prerelease"].as_bool().unwrap_or(false),
            html_url: row["html_url"].as_str().unwrap_or_default().to_string(),
            assets: row["assets"]
                .as_array()
                .map(|assets| {
                    assets
                        .iter()
                        .map(|a| GithubAsset {
                            name: a["name"].as_str().unwrap_or_default().to_string(),
                            browser_download_url: a["browser_download_url"]
                                .as_str()
                                .unwrap_or_default()
                                .to_string(),
                        })
                        .collect()
                })
                .unwrap_or_default(),
        })
        .collect()
}

fn newer_release_json() -> &'static str {
    r#"[{
        "tag_name": "v0.2.0",
        "draft": false,
        "prerelease": false,
        "html_url": "https://github.com/helloworldx55/cursor-api-proxy/releases/tag/v0.2.0",
        "assets": [{
            "name": "cursor2api-windows.zip",
            "browser_download_url": "https://github.com/helloworldx55/cursor-api-proxy/releases/download/v0.2.0/cursor2api-windows.zip"
        }]
    }]"#
}

#[test]
fn newer_release_yields_a_download_prompt() {
    let prompt = update_prompt("0.1.0", &releases_from_json(newer_release_json()))
        .expect("valid Releases JSON")
        .expect("newer Release must prompt a download");
    assert_eq!(prompt.latest_version, "v0.2.0");
    assert_eq!(
        prompt.download_url,
        "https://github.com/helloworldx55/cursor-api-proxy/releases/download/v0.2.0/cursor2api-windows.zip"
    );
}

#[test]
fn matching_or_older_release_does_not_prompt() {
    assert!(
        update_prompt("0.2.0", &releases_from_json(newer_release_json()))
            .unwrap()
            .is_none(),
        "same version must not nag"
    );
    assert!(
        update_prompt("0.3.0", &releases_from_json(newer_release_json()))
            .unwrap()
            .is_none(),
        "running a newer Console must not prompt a download"
    );
}

#[test]
fn drafts_and_prereleases_are_ignored() {
    let json = r#"[
        {"tag_name":"v1.0.0","draft":true,"prerelease":false,"html_url":"https://example.invalid/draft","assets":[]},
        {"tag_name":"v0.9.0","draft":false,"prerelease":true,"html_url":"https://example.invalid/pre","assets":[]},
        {"tag_name":"v0.2.0","draft":false,"prerelease":false,"html_url":"https://github.com/helloworldx55/cursor-api-proxy/releases/tag/v0.2.0","assets":[]}
    ]"#;
    let prompt = update_prompt("0.1.0", &releases_from_json(json))
        .unwrap()
        .expect("published Release after drafts");
    assert_eq!(prompt.latest_version, "v0.2.0");
    assert_eq!(
        prompt.download_url,
        "https://github.com/helloworldx55/cursor-api-proxy/releases/tag/v0.2.0"
    );
}

#[test]
fn prompt_uses_the_newest_published_release_not_the_first_row() {
    let json = r#"[
        {"tag_name":"v0.1.5","draft":false,"prerelease":false,"html_url":"https://github.com/helloworldx55/cursor-api-proxy/releases/tag/v0.1.5","assets":[]},
        {"tag_name":"v0.2.0","draft":false,"prerelease":false,"html_url":"https://github.com/helloworldx55/cursor-api-proxy/releases/tag/v0.2.0","assets":[]}
    ]"#;
    let prompt = update_prompt("0.1.0", &releases_from_json(json))
        .unwrap()
        .expect("newest published Release");
    assert_eq!(prompt.latest_version, "v0.2.0");
}

struct StaticReleases(&'static str);

impl ReleaseSource for StaticReleases {
    fn load_releases(&self) -> Result<Vec<GithubRelease>, String> {
        Ok(releases_from_json(self.0))
    }
}

struct FailingReleases;

impl ReleaseSource for FailingReleases {
    fn load_releases(&self) -> Result<Vec<GithubRelease>, String> {
        Err("network down".to_string())
    }
}

#[test]
fn check_for_update_answers_on_the_loaded_listing() {
    let prompt = check_for_update("0.1.0", &StaticReleases(newer_release_json()))
        .unwrap()
        .expect("prompt still appears");
    assert_eq!(prompt.latest_version, "v0.2.0");
}

#[test]
fn check_for_update_passes_a_failed_load_on() {
    let err = check_for_update("0.1.0", &FailingReleases).unwrap_err();
    assert_eq!(err, "network down");
}

#[test]
fn parse_version_reads_triples() {
    assert_eq!(parse_version("v1.2.3"), Some((1, 2, 3)));
    assert_eq!(parse_version("  V0.9.0+build  "), Some((0, 9, 0)));
    assert_eq!(parse_version("vv2.0.1-beta.4"), Some((2, 0, 1)));
    assert_eq!(parse_version("1.2"), None);
    assert_eq!(parse_version("1.x.3"), None);
    assert_eq!(parse_version(""), None);
    assert_eq!(parse_version("+1.+2.3"), None);
    assert_eq!(parse_version("18446744073709551615.0.0"), Some((u64::MAX, 0, 0)));
    assert_eq!(parse_version("18446744073709551616.0.0"), None);
}

#[test]
fn unreadable_current_version_is_an_error_only_when_a_release_exists() {
    let err = update_prompt("dev", &releases_from_json(newer_release_json())).unwrap_err();
    assert_eq!(err, "无法解析当前版本 dev");
    assert!(update_prompt("dev", &Vec::new()).unwrap().is_none());
}

#[test]
fn equal_versions_keep_the_first_row() {
    let json = r#"[
        {"tag_name":"v0.2.0","draft":false,"prerelease":false,"html_url":"first","assets":[]},
        {"tag_name":"0.2.0","draft":false,"prerelease":false,"html_url":"second","assets":[]}
    ]"#;
    let prompt = update_prompt("0.1.0", &releases_from_json(json)).unwrap().unwrap();
    assert_eq!(prompt.latest_version, "v0.2.0");
    assert_eq!(prompt.download_url, "first");
}

#[test]
fn download_url_prefers_the_first_zip_asset() {
    let release = GithubRelease {
        tag_name: "v1.0.0".to_string(),
        draft: false,
        prerelease: false,
        html_url: "page".to_string(),
        assets: vec![
            GithubAsset { name: "notes.txt".to_string(), browser_download_url: "txt".to_string() },
            GithubAsset { name: "a.zip".to_string(), browser_download_url: "first-zip".to_string() },
            GithubAsset { name: "b.zip".to_string(), browser_download_url: "second-zip".to_string() },
        ],
    };
    assert_eq!(download_url(&release), "first-zip");
    let bare = GithubRelease { assets: Vec::new(), ..release };
    assert_eq!(download_url(&bare), "page");
}
