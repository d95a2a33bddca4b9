use buddy::error::ErrorOf;
use buddy::number::IntError;
use buddy::store::Entry;
use buddy::update::{
    conclude_check, consult_cache, latest_stable_release, releases_url, update_request,
    update_result_lines, validate_repository, GitHubRelease, UpdateCache, CACHE_SECONDS,
};
use buddy::version::StableVersion;

fn release(tag: &str, url: &str) -> GitHubRelease {
    GitHubRelease {
        tag_name: tag.to_owned(),
        html_url: url.to_owned(),
        draft: false,
        prerelease: false,
    }
}

fn version(text: &str) -> StableVersion {
    StableVersion::parse(text).unwrap()
}

#[test]
fn stable_versions_sort_numerically() {
    let old = StableVersion::parse("1.9.12").unwrap();
    let new = StableVersion::parse("1.10.0").unwrap();
    assert!(new > old);
    assert!(StableVersion::parse("1.10.0-beta.1").is_none());
}

#[test]
fn release_selection_ignores_drafts_prereleases_and_other_tags() {
    let releases = vec![
        GitHubRelease {
            tag_name: "buddy-v1.2.0".to_owned(),
            html_url: "stable".to_owned(),
            draft: false,
            prerelease: false,
        },
        GitHubRelease {
            tag_name: "buddy-v9.0.0".to_owned(),
            html_url: "draft".to_owned(),
            draft: true,
            prerelease: false,
        },
        GitHubRelease {
            tag_name: "v8.0.0".to_owned(),
            html_url: "other-project".to_owned(),
            draft: false,
            prerelease: false,
        },
    ];
    let (version, release) = latest_stable_release(&releases, "buddy-v").unwrap();
    assert_eq!(version, StableVersion::parse("1.2.0").unwrap());
    assert_eq!(release.html_url, "stable");
}

#[test]
fn only_three_plain_numbers_are_a_stable_version() {
    for text in ["", "1", "1.2", "1.2.3.4", "1..3", "a.b.c", "1.2.3+4", "+1.2.3", "v1.2.3", "1.2.3 "]
    {
        assert_eq!(StableVersion::parse(text), None, "{}", text);
    }
    for text in ["01.2.3", "1.02.3", "1.2.03", "00.0.0"] {
        assert_eq!(StableVersion::parse(text), None, "{}", text);
        assert_eq!(StableVersion::from_tag(&format!("v{}", text), "v"), None, "{}", text);
    }
    assert_eq!(version("0.10.0").to_string(), "0.10.0");
    assert_eq!(version("1.2.3").to_string(), "1.2.3");
    assert_eq!(StableVersion::from_tag("v1.2.3", "v"), Some(version("1.2.3")));
    assert_eq!(StableVersion::from_tag("1.2.3", "v"), None);
    assert_eq!(StableVersion::from_tag("vv1.2.3", "v"), None);
    assert_eq!(StableVersion::from_tag("1.2.3", ""), Some(version("1.2.3")));
    assert!(version("2.0.0") > version("1.99.99"));
    assert!(version("1.0.1") > version("1.0.0"));
    assert!(!(version("1.0.0") > version("1.0.0")));
}

#[test]
fn the_order_of_releases_does_not_matter() {
    let mut releases = vec![release("v1.2.0", "a"), release("v1.10.0", "b"), release("v1.9.9", "c")];
    assert_eq!(latest_stable_release(&releases, "v").unwrap().1.html_url, "b");
    releases.reverse();
    assert_eq!(latest_stable_release(&releases, "v").unwrap().1.html_url, "b");
    // Of two releases of one version the last one counts.
    let twins = vec![release("v1.0.0", "first"), release("v1.0.0", "second")];
    assert_eq!(latest_stable_release(&twins, "v").unwrap().1.html_url, "second");
    let padded = vec![release("v1.0.0", "first"), release("v02.0.0", "padded")];
    assert_eq!(latest_stable_release(&padded, "v").unwrap().1.html_url, "first");
    let mut early = release("v2.0.0", "early");
    early.prerelease = true;
    assert!(latest_stable_release(&[early], "v").is_none());
    assert!(latest_stable_release(&[], "v").is_none());
}

#[test]
fn repositories_are_an_owner_and_a_name() {
    for text in ["elci-group/buddy", "a/b", "A.b_c-1/x.y", "a/."] {
        assert_eq!(validate_repository(text), Ok(()), "{}", text);
    }
    for text in ["", "buddy"] {
        assert_eq!(validate_repository(text), Err(ErrorOf::RepositoryFormat), "{}", text);
    }
    for text in ["/", "a/", "/b", "a/b/c", "a b/c", "a/b..c", "a/ä", "a/b?c"] {
        assert_eq!(
            validate_repository(text),
            Err(ErrorOf::RepositoryInvalid { repository: text.to_owned() }),
            "{}",
            text
        );
    }
    assert_eq!(validate_repository("../b"), Ok(()));
    assert_eq!(
        validate_repository("a/..").unwrap_err().to_string(),
        "invalid BUDDY_RELEASE_REPO 'a/..'"
    );
    assert_eq!(
        validate_repository("a").unwrap_err().to_string(),
        "BUDDY_RELEASE_REPO must use owner/repository format"
    );
}

#[test]
fn releases_are_found_at_the_service() {
    assert_eq!(
        releases_url(None, "a/b"),
        "https://api.github.com/repos/a/b/releases?per_page=30"
    );
    assert_eq!(
        releases_url(Some("http://localhost:8080//".to_owned()), "a/b"),
        "http://localhost:8080/repos/a/b/releases?per_page=30"
    );
}

#[test]
fn the_result_of_a_check_is_told() {
    let lines = |latest, url, cached| update_result_lines(version("1.0.0"), latest, url, cached);
    assert_eq!(
        lines(None, None, false).unwrap(),
        ["No stable Buddy release was found. Current: 1.0.0."]
    );
    assert_eq!(
        lines(Some(""), Some(""), true).unwrap(),
        ["No stable Buddy release was found (cached). Current: 1.0.0."]
    );
    assert_eq!(
        lines(Some("1.0.1"), Some("http://x"), true).unwrap(),
        ["Buddy 1.0.1 is available; current: 1.0.0 (cached).", "Release: http://x"]
    );
    assert_eq!(
        lines(Some("1.0.1"), Some(""), false).unwrap(),
        ["Buddy 1.0.1 is available; current: 1.0.0."]
    );
    assert_eq!(
        lines(Some("1.0.0"), Some("http://x"), false).unwrap(),
        ["Buddy is up to date at 1.0.0."]
    );
    assert_eq!(
        lines(Some("0.9.0"), None, true).unwrap(),
        ["Buddy is up to date at 1.0.0 (cached)."]
    );
    assert_eq!(
        lines(Some("next"), None, true).unwrap_err().to_string(),
        "invalid cached release version 'next'"
    );
}

#[test]
fn a_check_needs_a_stable_build() {
    assert_eq!(
        update_request("1.0.0-dev", None, None).unwrap_err().to_string(),
        "update checks are disabled for non-stable build 1.0.0-dev"
    );
    assert_eq!(
        update_request("1.0.0", Some("nowhere".to_owned()), None),
        Err(ErrorOf::RepositoryFormat)
    );
    let request = update_request("1.0.0", None, None).unwrap();
    assert_eq!(request.repository, "elci-group/buddy");
    assert_eq!(request.prefix, "v");
    let request =
        update_request("1.0.0", Some("a/b".to_owned()), Some("buddy-v".to_owned())).unwrap();
    assert_eq!(request.repository, "a/b");
    assert_eq!(request.prefix, "buddy-v");
}

fn kept(entries: &[Entry]) -> UpdateCache {
    let find = |key: &str| {
        entries.iter().find(|entry| entry.key == key).map(|entry| entry.value.clone())
    };
    UpdateCache {
        checked_at: find("update_checked_at_unix"),
        repository: find("update_repository"),
        prefix: find("update_tag_prefix"),
        version: find("update_latest_version"),
        url: find("update_latest_url"),
    }
}

#[test]
fn a_check_is_answered_from_the_last_one_for_six_hours() {
    let request = update_request("1.0.0", None, None).unwrap();
    let outcome = conclude_check(&request, &[release("v1.1.0", "http://x")], 1000);
    assert_eq!(
        outcome.lines,
        ["Buddy 1.1.0 is available; current: 1.0.0.", "Release: http://x"]
    );
    let cache = kept(&outcome.entries);
    assert_eq!(cache.checked_at.as_deref(), Some("1000"));
    let cached = ["Buddy 1.1.0 is available; current: 1.0.0 (cached).", "Release: http://x"];
    assert_eq!(consult_cache(&request, false, 1000, &cache).unwrap().unwrap(), cached);
    let last = 1000 + CACHE_SECONDS - 1;
    assert_eq!(CACHE_SECONDS, 6 * 60 * 60);
    assert_eq!(consult_cache(&request, false, last, &cache).unwrap().unwrap(), cached);
    assert_eq!(consult_cache(&request, false, last + 1, &cache), Ok(None));
    // A clock that was set back does not make a check old.
    assert_eq!(consult_cache(&request, false, 0, &cache).unwrap().unwrap(), cached);
    assert_eq!(consult_cache(&request, true, 1000, &cache), Ok(None));
    let other = update_request("1.0.0", Some("a/b".to_owned()), None).unwrap();
    assert_eq!(consult_cache(&other, false, 1000, &cache), Ok(None));
    let other = update_request("1.0.0", None, Some("b".to_owned())).unwrap();
    assert_eq!(consult_cache(&other, false, 1000, &cache), Ok(None));
}

#[test]
fn a_check_without_a_stable_release_is_kept_too() {
    let request = update_request("1.0.0", None, None).unwrap();
    let outcome = conclude_check(&request, &[release("nightly", "http://x")], 7);
    assert_eq!(outcome.lines, ["No stable Buddy release was found. Current: 1.0.0."]);
    let cache = kept(&outcome.entries);
    assert_eq!(cache.version.as_deref(), Some(""));
    assert_eq!(cache.url.as_deref(), Some(""));
    assert_eq!(
        consult_cache(&request, false, 7, &cache).unwrap().unwrap(),
        ["No stable Buddy release was found (cached). Current: 1.0.0."]
    );
}

#[test]
fn an_unreadable_last_check_is_an_error() {
    let request = update_request("1.0.0", None, None).unwrap();
    let empty = kept(&[]);
    assert_eq!(consult_cache(&request, false, CACHE_SECONDS, &empty), Ok(None));
    let mut cache = kept(&conclude_check(&request, &[], 7).entries);
    cache.checked_at = Some("soon".to_owned());
    assert_eq!(
        consult_cache(&request, false, 7, &cache),
        Err(ErrorOf::UpdateTimestamp { value: "soon".to_owned(), cause: IntError::InvalidDigit })
    );
    assert_eq!(consult_cache(&request, true, 7, &cache), Ok(None));
    assert_eq!(
        consult_cache(&request, false, 7, &cache).unwrap_err().report(),
        "invalid cached update timestamp 'soon': invalid digit found in string"
    );
    cache.checked_at = Some("7".to_owned());
    cache.version = Some("soon".to_owned());
    assert_eq!(
        consult_cache(&request, false, 7, &cache),
        Err(ErrorOf::UpdateVersion { version: "soon".to_owned() })
    );
}
