use claw_expense::update::{
    accept_release, begin_check, cached_notice, end_check, format_version, notice, notice_of,
    response_body, stable_from, stable_version, Cache, Parts, Release, Step, CHECK_INTERVAL,
    MAX_RESPONSE,
};

const NOW: u64 = 1_800_000_000;
const RELEASE_PAGE: &str = "https://github.com/yuzheng14/claw-expense/releases/tag/";

fn parts(major: u64, minor: u64, patch: u64, pre: &str, build: &str) -> Parts {
    Parts {
        major,
        minor,
        patch,
        pre: pre.to_owned(),
        build: build.to_owned(),
    }
}

/// One look for a release: what is kept of it, and the notice that it gives rise to.
fn check(
    kept: &mut Option<Cache>,
    version: &str,
    now: u64,
    fetch: fn() -> Option<String>,
) -> Option<String> {
    let cache = match begin_check(kept.take(), now) {
        Step::Remembered { cache } => cache,
        Step::Fetch { cache } => end_check(cache, fetch()),
    };
    let message = cached_notice(version, &cache);
    *kept = Some(cache);
    message
}

#[test]
fn compares_semver_precedence_not_strings_or_build_metadata() {
    assert!(notice("0.9.0", "v0.10.0").is_some());
    assert!(notice("1.0.0-rc.1", "v1.0.0").is_some());
    assert!(notice("1.0.0", "1.1.0").is_some());
    for (current, latest) in [
        ("1.0.0", "v1.0.0"),
        ("2.0.0", "v1.9.9"),
        ("1.0.0+build.1", "v1.0.0+build.9"),
        ("1.0.0", "v2.0.0-rc.1"),
        ("1.0.0", "v2.0"),
        ("1.0.0", "v2.0.0\nspoof"),
        ("1.0.0", "v2.0.0\u{1b}[31m"),
        ("invalid", "v2.0.0"),
    ] {
        assert!(notice(current, latest).is_none(), "{current} {latest}");
    }
}

#[test]
fn a_notice_names_both_versions_and_where_to_get_the_newer() {
    assert_eq!(
        notice("0.9.0-beta.2+x", "v0.10.0+linux").unwrap(),
        format!(
            "[WARN] 有更新可用：claw-expense 0.9.0-beta.2+x → 0.10.0+linux；请手动更新：\
             {RELEASE_PAGE}v0.10.0+linux（不会自动升级）"
        )
    );
    let current = parts(0, 9, 0, "", "");
    let latest = parts(1, 0, 0, "", "");
    assert_eq!(notice_of(&current, &latest, false, "v1.0.0"), None);
    assert!(notice_of(&current, &latest, true, "v1.0.0")
        .unwrap()
        .contains("claw-expense 0.9.0 → 1.0.0；"));
}

#[test]
fn a_stable_version_is_no_pre_release_and_its_tag_is_short() {
    let stable = stable_version("v1.22.333+build.7").unwrap();
    assert_eq!((stable.major, stable.minor, stable.patch), (1, 22, 333));
    assert_eq!(stable.pre, "");
    assert_eq!(stable.build, "build.7");
    assert_eq!(format_version(&stable), "1.22.333+build.7");
    assert!(stable_version("v1.0.0-rc.1").is_none());
    assert!(stable_version("vv1.0.0").is_none());
    assert!(stable_version("1.0").is_none());
    let long = format!("v1.0.0+{}", "a".repeat(121));
    assert_eq!(long.len(), 128);
    assert!(stable_version(&long).is_some());
    assert!(stable_version(&format!("{long}a")).is_none());
    assert!(stable_from("v1.0.0", Some(parts(1, 0, 0, "", ""))).is_some());
    assert!(stable_from("v1.0.0", Some(parts(1, 0, 0, "rc", ""))).is_none());
    assert!(stable_from("v1.0.0", None).is_none());
    assert_eq!(format_version(&parts(1, 2, 3, "rc.1", "b")), "1.2.3-rc.1+b");
}

#[test]
fn caches_a_success_and_stops_warning_after_upgrade() {
    let mut kept = None;
    let message = check(&mut kept, "0.1.0", NOW, || Some("v0.2.0".to_owned())).unwrap();
    assert!(message.contains("[WARN] 有更新可用"));
    assert!(message.contains(&format!("{RELEASE_PAGE}v0.2.0")));
    for version in ["0.1.0", "0.2.0", "0.3.0"] {
        let result = check(&mut kept, version, NOW + 1, || {
            panic!("fresh cache must not fetch")
        });
        assert_eq!(result.is_some(), version == "0.1.0");
    }
}

#[test]
fn failed_checks_are_throttled_and_retry_at_expiry() {
    let mut kept = None;
    assert!(check(&mut kept, "0.1.0", NOW, || None).is_none());
    assert!(check(&mut kept, "0.1.0", NOW + CHECK_INTERVAL - 1, || {
        panic!("failed attempt still has a cooldown")
    })
    .is_none());
    assert!(check(&mut kept, "0.1.0", NOW + CHECK_INTERVAL, || Some(
        "v0.2.0".to_owned()
    ))
    .is_some());
}

#[test]
fn refresh_failure_retains_the_last_known_release() {
    let mut kept = None;
    check(&mut kept, "0.1.0", NOW, || Some("v0.2.0".to_owned()));
    assert!(check(&mut kept, "0.1.0", NOW + CHECK_INTERVAL, || None).is_some());
    assert_eq!(kept.unwrap().checked_at, NOW + CHECK_INTERVAL);
}

#[test]
fn a_cache_of_another_form_or_from_the_future_does_not_disable_checks() {
    for kept in [
        None,
        Some(Cache {
            schema: 99,
            checked_at: NOW,
            latest_tag: Some("v99.0.0".to_owned()),
        }),
        Some(Cache {
            schema: 1,
            checked_at: NOW + 1,
            latest_tag: None,
        }),
    ] {
        let mut kept = kept;
        let message = check(&mut kept, "0.1.0", NOW, || Some("v0.2.0".to_owned()));
        assert!(message.unwrap().contains("0.2.0"));
    }
    let mut foreign = Some(Cache {
        schema: 99,
        checked_at: NOW,
        latest_tag: Some("v99.0.0".to_owned()),
    });
    assert!(check(&mut foreign, "0.1.0", NOW, || None).is_none());
}

#[test]
fn an_answer_is_used_only_with_the_status_200_in_its_last_line() {
    assert_eq!(response_body(&b"{}\n200".to_vec()), Some(2));
    assert_eq!(response_body(&b"a\nb\n200".to_vec()), Some(3));
    assert_eq!(response_body(&b"\n200".to_vec()), Some(0));
    for bytes in ["", "200", "{}\n302", "{}\n403", "{}\n2000", "{}\n200\n", "{}200"] {
        assert_eq!(response_body(&bytes.as_bytes().to_vec()), None, "{bytes:?}");
    }
    let mut long = vec![b' '; MAX_RESPONSE as usize - 4];
    long.extend(b"\n200");
    assert_eq!(response_body(&long), Some(MAX_RESPONSE as usize - 4));
    long.insert(0, b' ');
    assert_eq!(response_body(&long), None);
}

#[test]
fn drafts_and_pre_releases_are_not_accepted() {
    let release = |tag: &str, draft: bool, prerelease: bool| Release {
        tag_name: tag.to_owned(),
        draft,
        prerelease,
    };
    assert_eq!(
        accept_release(release("v0.2.0", false, false)).as_deref(),
        Some("v0.2.0")
    );
    assert_eq!(accept_release(release("v0.2.0", true, false)), None);
    assert_eq!(accept_release(release("v0.2.0", false, true)), None);
    assert_eq!(accept_release(release("v0.2.0-rc.1", false, false)), None);
    assert_eq!(accept_release(release("latest", false, false)), None);
}
