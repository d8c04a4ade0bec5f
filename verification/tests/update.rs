use datum_connect::times::Timestamp;
use datum_connect::update::{
    apply_update, fake_install, get_install_script_unix, is_app_bundle,
    parse_hdiutil_attach_mount_point, powershell_script, release_eligible_for_channel,
    select_release_for_channel, try_find_platform_asset, update_info, update_info_with,
    wait_and_run, GitHubAsset, GitHubRelease, InstallError, InstallStep, Platform, UpdateChannel,
    UpdateChecker, UpdateError, UpdateSettings,
};
use datum_connect::repo::Repo;
use datum_connect::versions::{is_newer, parse_update_version};

#[test]
fn channel_infer_stable_pkg_version() {
    assert_eq!(
        UpdateChannel::infer_from_pkg_version("1.2.3"),
        UpdateChannel::Stable
    );
    assert_eq!(
        UpdateChannel::infer_from_pkg_version("v1.2.3"),
        UpdateChannel::Stable
    );
}

#[test]
fn channel_infer_beta_pkg_version() {
    assert_eq!(
        UpdateChannel::infer_from_pkg_version("1.2.3-beta.1"),
        UpdateChannel::Beta
    );
    assert_eq!(
        UpdateChannel::infer_from_pkg_version("v2.0.0-rc.1"),
        UpdateChannel::Beta
    );
}

fn asset(name: &str) -> GitHubAsset {
    GitHubAsset {
        name: name.to_string(),
        browser_download_url: format!("https://example.com/{name}"),
        size: 1,
    }
}

fn sample_asset() -> GitHubAsset {
    GitHubAsset {
        name: "Datum_aarch64.dmg".to_string(),
        browser_download_url: "https://example.com/a.dmg".to_string(),
        size: 1,
    }
}

fn gh_release(tag: &str, draft: bool, prerelease: bool, with_asset: bool) -> GitHubRelease {
    GitHubRelease {
        tag_name: tag.to_string(),
        name: format!("Release {tag}"),
        published_at: "2020-01-01T00:00:00Z".to_string(),
        assets: if with_asset {
            vec![sample_asset()]
        } else {
            vec![]
        },
        draft,
        prerelease,
    }
}

#[test]
fn stable_skips_draft_prerelease_and_rolling() {
    let releases = vec![
        gh_release("v9.0.0", true, false, true),
        gh_release("v8.0.0", false, true, true),
        gh_release("rolling", false, false, true),
        gh_release("v2.0.0", false, false, true),
    ];
    let picked = select_release_for_channel(releases, UpdateChannel::Stable, "1.0.0", |_| true);
    assert_eq!(picked.unwrap().tag_name, "v2.0.0");
}

#[test]
fn stable_prefers_full_release_over_newer_prerelease() {
    let releases = vec![
        gh_release("v3.0.0", false, true, true),
        gh_release("v2.0.0", false, false, true),
    ];
    let picked = select_release_for_channel(releases, UpdateChannel::Stable, "1.0.0", |_| true);
    assert_eq!(picked.unwrap().tag_name, "v2.0.0");
}

#[test]
fn beta_takes_newest_eligible_including_prerelease() {
    let releases = vec![
        gh_release("v3.0.0", false, true, true),
        gh_release("v2.0.0", false, false, true),
    ];
    let picked = select_release_for_channel(releases, UpdateChannel::Beta, "1.0.0", |_| true);
    assert_eq!(picked.unwrap().tag_name, "v3.0.0");
}

#[test]
fn beta_skips_newer_stable_and_takes_prerelease() {
    let releases = vec![
        gh_release("v2.0.0", false, false, true),
        gh_release("v1.5.0-beta", false, true, true),
    ];
    let picked = select_release_for_channel(releases, UpdateChannel::Beta, "1.0.0", |_| true);
    assert_eq!(picked.unwrap().tag_name, "v1.5.0-beta");
}

#[test]
fn beta_offers_no_update_when_only_stable_is_newer() {
    let releases = vec![gh_release("v2.0.0", false, false, true)];
    let picked = select_release_for_channel(releases, UpdateChannel::Beta, "1.0.0", |_| true);
    assert!(picked.is_none());
}

#[test]
fn beta_accepts_hyphen_tag_without_prerelease_flag() {
    let releases = vec![gh_release("v2.0.0-beta", false, false, true)];
    let picked = select_release_for_channel(releases, UpdateChannel::Beta, "1.0.0", |_| true);
    assert_eq!(picked.unwrap().tag_name, "v2.0.0-beta");
}

#[test]
fn stable_excludes_hyphen_tag_even_without_prerelease_flag() {
    let releases = vec![gh_release("v2.0.0-beta", false, false, true)];
    let picked = select_release_for_channel(releases, UpdateChannel::Stable, "1.0.0", |_| true);
    assert!(picked.is_none());
}

#[test]
fn skips_release_without_matching_asset_predicate() {
    let releases = vec![
        gh_release("v3.0.0", false, false, false),
        gh_release("v2.0.0", false, false, true),
    ];
    let picked =
        select_release_for_channel(releases, UpdateChannel::Stable, "1.0.0", |a| !a.is_empty());
    assert_eq!(picked.unwrap().tag_name, "v2.0.0");
}

#[test]
fn none_when_nothing_newer() {
    let releases = vec![gh_release("v2.0.0", false, false, true)];
    let picked = select_release_for_channel(releases, UpdateChannel::Stable, "2.0.0", |_| true);
    assert!(picked.is_none());
}

#[test]
fn newer_orders_prerelease_suffixes() {
    assert!(UpdateChecker::is_newer_version(
        "1.0.0-beta.2",
        "1.0.0-beta.1"
    ));
    assert!(!UpdateChecker::is_newer_version(
        "1.0.0-beta.1",
        "1.0.0-beta.2"
    ));
    assert!(UpdateChecker::is_newer_version(
        "1.0.0-rc.1",
        "1.0.0-beta.99"
    ));
}

#[test]
fn release_newer_than_prerelease_same_core() {
    assert!(UpdateChecker::is_newer_version("1.0.0", "1.0.0-beta.99"));
    assert!(!UpdateChecker::is_newer_version("1.0.0-beta.99", "1.0.0"));
}

#[test]
fn newer_accepts_v_prefix_build_metadata_ignored() {
    assert!(UpdateChecker::is_newer_version("v1.2.4", "1.2.3"));
    // Build metadata does not affect precedence.
    assert!(!UpdateChecker::is_newer_version(
        "1.2.3+build2",
        "1.2.3+build1"
    ));
}

#[test]
fn versions_are_read_loosely() {
    let v = parse_update_version("  v1.2.3-rc.1+abc ").unwrap();
    assert_eq!((v.major, v.minor, v.patch, v.pre.as_str()), (1, 2, 3, "rc.1"));
    let v = parse_update_version("vv7").unwrap();
    assert_eq!((v.major, v.minor, v.patch, v.pre.as_str()), (7, 0, 0, ""));
    let v = parse_update_version("1.4").unwrap();
    assert_eq!((v.major, v.minor, v.patch), (1, 4, 0));
    assert!(parse_update_version("1.x.3").is_none());
    assert!(parse_update_version("1.2.x").is_none());
    assert!(parse_update_version("1..3").is_none());
    assert!(parse_update_version("x.2.3").is_none());
    assert!(parse_update_version("").is_none());
    assert!(parse_update_version("rolling").is_none());
    assert!(parse_update_version("-beta").is_none());
    assert!(parse_update_version("1.0.0-a..b").is_none());
    assert!(parse_update_version("1.0.0-01").is_none());
    assert!(parse_update_version("1.0.0-ä").is_none());
    assert!(parse_update_version("99999999999999999999").is_none());
}

#[test]
fn versions_are_in_total_order() {
    let order = [
        "0.9", "1.0.0-1", "1.0.0-2", "1.0.0-10", "1.0.0-alpha", "1.0.0-alpha.1",
        "1.0.0-alpha.beta", "1.0.0-beta", "1.0.0-beta.2", "1.0.0-beta.11", "1.0.0-rc.1", "1.0.0",
        "1.0.1", "1.1", "2",
    ];
    for i in 0..order.len() {
        for k in 0..order.len() {
            assert_eq!(is_newer(order[i], order[k]), i > k, "{} {}", order[i], order[k]);
        }
    }
    assert!(!is_newer("rolling", "1.0.0"));
    assert!(!is_newer("1.0.0", "rolling"));
}

#[test]
fn every_release_belongs_to_one_channel() {
    for tag in ["v1.0.0", "v1.0.0-rc.1", "1.2", "rolling"] {
        for draft in [false, true] {
            for pre in [false, true] {
                let r = gh_release(tag, draft, pre, true);
                let stable = release_eligible_for_channel(&r, UpdateChannel::Stable);
                let beta = release_eligible_for_channel(&r, UpdateChannel::Beta);
                assert!(!(stable && beta));
                assert_eq!(stable || beta, !draft && tag != "rolling");
            }
        }
    }
}

#[test]
fn file_for_platform_prefers_the_processor() {
    let assets = vec![
        asset("Datum.exe"),
        asset("Datum_x86_64.dmg"),
        asset("Datum_aarch64.dmg"),
        asset("Datum.AppImage"),
    ];
    assert_eq!(try_find_platform_asset(&assets, Platform::MacArm), Some(2));
    assert_eq!(try_find_platform_asset(&assets, Platform::MacIntel), Some(1));
    assert_eq!(try_find_platform_asset(&assets, Platform::Windows), Some(0));
    assert_eq!(try_find_platform_asset(&assets, Platform::Linux), Some(3));
    assert_eq!(try_find_platform_asset(&assets, Platform::Other), None);
    let universal = vec![asset("Datum.dmg")];
    assert_eq!(try_find_platform_asset(&universal, Platform::MacArm), Some(0));
    assert_eq!(try_find_platform_asset(&universal, Platform::Linux), None);
}

#[test]
fn update_is_described_by_its_release() {
    let mut release = gh_release("v2.0.0", false, false, true);
    release.published_at = "2020-01-01T01:00:00.5+01:00".to_string();
    let info = update_info(&release, Platform::MacArm).unwrap();
    assert_eq!(info.version, "2.0.0");
    assert_eq!(info.release_name, "Release v2.0.0");
    assert_eq!(info.download_url, "https://example.com/a.dmg");
    assert_eq!(info.download_size, 1);
    assert_eq!(
        info.published_at,
        Timestamp { seconds: 1_577_836_800, nanos: 500_000_000 }
    );
    assert_eq!(update_info(&release, Platform::Linux), Err(UpdateError::NoAsset));
    release.published_at = "yesterday".to_string();
    assert_eq!(update_info(&release, Platform::MacArm), Err(UpdateError::PublishedAt));
    assert_eq!(
        update_info_with(&release, Platform::MacArm, None),
        Err(UpdateError::PublishedAt)
    );
}

#[test]
fn checker_offers_what_suits_the_settings() {
    let checker = UpdateChecker::new(Repo::new("/data".to_string()));
    assert_eq!(checker.current_version(), "0.1.0");
    assert_eq!(checker.settings_file(), "/data/update_settings.yml");
    assert_eq!(checker.download_file(), "/data/update_temp.bin");
    assert_eq!(checker.script_file(), "/data/update_install.sh");
    let here = UpdateChecker::new(Repo::new(String::new()));
    assert_eq!(here.settings_file(), "update_settings.yml");
    assert_eq!(here.download_file(), "update_temp.bin");
    assert_eq!(here.script_file(), "update_install.sh");
    assert_eq!(
        UpdateChecker::releases_url(),
        "https://api.github.com/repos/datum-cloud/app/releases?per_page=100"
    );
    let mut settings = UpdateSettings::default();
    let releases = || {
        vec![
            gh_release("v0.3.0-beta", false, true, true),
            gh_release("v0.2.0", false, false, true),
        ]
    };
    let picked = checker.check_for_updates(&settings, releases(), Platform::MacArm);
    assert_eq!(picked.unwrap().tag_name, "v0.2.0");
    assert!(checker.check_for_updates(&settings, releases(), Platform::Linux).is_none());
    settings.update_channel = UpdateChannel::Beta;
    let picked = checker.check_for_updates(&settings, releases(), Platform::MacArm);
    assert_eq!(picked.unwrap().tag_name, "v0.3.0-beta");
    settings.auto_update_enabled = false;
    assert!(checker.check_for_updates(&settings, releases(), Platform::MacArm).is_none());
}

#[test]
fn settings_say_when_to_look() {
    let mut settings = UpdateSettings::default();
    assert_eq!(settings.check_interval_hours, 6);
    assert_eq!(settings.update_channel, UpdateChannel::Stable);
    assert_eq!(UpdateChannel::default(), UpdateChannel::infer_from_installed_version());
    assert!(settings.should_check(0));
    settings.checked_at(1000);
    assert!(!settings.should_check(1000 + 6 * 3600 - 1));
    assert!(settings.should_check(1000 + 6 * 3600));
    settings.auto_update_enabled = false;
    assert!(!settings.should_check(1_000_000));
    assert!(!settings.should_check(0));
    let never = UpdateSettings { check_interval_hours: u64::MAX, ..UpdateSettings::default() };
    assert!(never.should_check(0));
}

#[test]
fn pending_install_is_kept_and_cleared() {
    let mut settings = UpdateSettings::default();
    assert!(!settings.has_pending_install(true));
    settings.set_pending_install("/tmp/u.bin", "0.2.0");
    assert!(settings.has_pending_install(true));
    assert!(!settings.has_pending_install(false));
    assert_eq!(settings.get_pending_install_path(true).as_deref(), Some("/tmp/u.bin"));
    assert_eq!(settings.get_pending_install_path(false), None);
    assert_eq!(settings.get_pending_update_version().as_deref(), Some("0.2.0"));
    settings.clear_pending_install();
    assert!(!settings.has_pending_install(true));
    assert_eq!(settings.get_pending_update_version(), None);
}

#[test]
fn install_goes_by_platform() {
    let fake = Some("1".to_string());
    assert_eq!(apply_update(false, &None, Platform::Linux), Err(InstallError::MissingFile));
    assert_eq!(apply_update(true, &fake, Platform::Other), Ok(InstallStep::Skip));
    assert_eq!(apply_update(true, &None, Platform::MacIntel), Ok(InstallStep::DiskImage));
    assert_eq!(apply_update(true, &None, Platform::Windows), Ok(InstallStep::Installer));
    assert_eq!(apply_update(true, &None, Platform::Linux), Ok(InstallStep::ReplaceFile));
    assert_eq!(apply_update(true, &None, Platform::Other), Err(InstallError::Unsupported));
    assert!(!fake_install(&Some("true".to_string())));
}

#[test]
fn mount_point_is_the_last_volume() {
    let out = "/dev/disk4\tGUID_partition_scheme\t\n/dev/disk4s1\tApple_HFS\t/Volumes/Datum App \n";
    assert_eq!(
        parse_hdiutil_attach_mount_point(out).as_deref(),
        Some("/Volumes/Datum App")
    );
    assert_eq!(parse_hdiutil_attach_mount_point("no volume\n"), None);
    assert_eq!(
        parse_hdiutil_attach_mount_point("a\t/Volumes/A\r\nb\tsee /Volumes/B\n").as_deref(),
        Some("/Volumes/A")
    );
    assert!(is_app_bundle("Datum.app"));
    assert!(!is_app_bundle(".app"));
    assert!(!is_app_bundle("Datum.apps"));
}

#[test]
fn install_commands_quote_their_paths() {
    assert_eq!(
        wait_and_run(7, "/r/update_install.sh", "/r/a\"b.bin", "/bin/datum"),
        "while kill -0 7 2>/dev/null; do sleep 0.5; done; chmod +x \"/r/update_install.sh\" && \"/r/update_install.sh\" \"/r/a\\\"b.bin\" \"/bin/datum\""
    );
    assert_eq!(
        powershell_script(7, "C:\\it's.exe", "C:\\d.exe", &None),
        "while (Get-Process -Id 7 -ErrorAction SilentlyContinue) { Start-Sleep -Milliseconds 500 }\nStart-Process -FilePath 'C:\\it''s.exe' -ArgumentList '/S' -Wait\nStart-Process -FilePath 'C:\\d.exe'\n"
    );
    assert_eq!(
        powershell_script(7, "u", "C:\\d.exe", &Some("1".to_string())),
        "while (Get-Process -Id 7 -ErrorAction SilentlyContinue) { Start-Sleep -Milliseconds 500 }\nStart-Process -FilePath 'C:\\d.exe'\n"
    );
    assert_eq!(
        get_install_script_unix(Platform::Linux, &Some("1".to_string())),
        "#!/bin/bash\nexec \"$2\"\n"
    );
    assert!(get_install_script_unix(Platform::Linux, &None).contains("cp -f \"$NEW\" \"$CURRENT\""));
    assert!(get_install_script_unix(Platform::MacArm, &None).contains("rsync -a --delete"));
    assert_eq!(
        get_install_script_unix(Platform::MacArm, &Some("1".to_string())),
        "open -a \"Datum\""
    );
}
