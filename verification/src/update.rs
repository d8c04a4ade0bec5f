//! Updates: which release to offer, when to look for one, and how it is installed.
use crate::http_user_agent::PKG_VERSION;
use crate::repo::{in_directory, Repo};
use crate::text::{
    cat, cat3, cat5, contains, contains_char, copy_opt, decimal, decimal_of, ends_with, has_prefix,
    has_suffix, has_text, lines, lines_of, opt_view, replace, replaced, same, split, split_at_char,
    starts_with, strip_front, trim, trim_start_matches, trimmed, views,
};
use crate::times::{parse_rfc3339, rfc3339_time, Timestamp};
use crate::versions::{is_newer, law_numbers_decide, newer, three_numbers};
use vstd::prelude::*;

verus! {

pub const GITHUB_API_BASE: &'static str = "https://api.github.com";

pub const REPO_OWNER: &'static str = "datum-cloud";

pub const REPO_NAME: &'static str = "app";

/// The file in which the settings are kept.
pub const SETTINGS_FILE: &'static str = "update_settings.yml";

/// Which releases are offered.
#[derive(Debug, Clone, Copy, PartialEq, Eq, Structural)]
pub enum UpdateChannel {
    /// Full releases only.
    Stable,
    /// Pre-releases only: it never jumps to a full release; for that the channel is switched.
    Beta,
}

/// The version has a pre-release part.
pub open spec fn has_prerelease(version: Seq<char>) -> bool {
    strip_front(version, 'v').contains('-')
}

/// The channel that a version belongs to.
pub open spec fn channel_of(version: Seq<char>) -> UpdateChannel {
    if has_prerelease(version) {
        UpdateChannel::Beta
    } else {
        UpdateChannel::Stable
    }
}

fn version_has_prerelease(version: &str) -> (r: bool)
    ensures
        r == has_prerelease(version@),
{
    let v = trim_start_matches(version, 'v');
    contains_char(v.as_str(), '-')
}

impl UpdateChannel {
    /// The channel by the rule for release tags: a version with a pre-release part belongs to the
    /// beta channel.
    pub fn infer_from_pkg_version(pkg_version: &str) -> (r: Self)
        ensures
            r == channel_of(pkg_version@),
    {
        if version_has_prerelease(pkg_version) {
            UpdateChannel::Beta
        } else {
            UpdateChannel::Stable
        }
    }

    /// The channel of the version that runs.
    pub fn infer_from_installed_version() -> (r: Self)
        ensures
            r == channel_of(PKG_VERSION@),
    {
        Self::infer_from_pkg_version(PKG_VERSION)
    }
}

impl Default for UpdateChannel {
    fn default() -> (r: Self)
        ensures
            r == channel_of(PKG_VERSION@),
    {
        Self::infer_from_installed_version()
    }
}

/// What is kept of updates between runs.
#[derive(Debug, Clone)]
pub struct UpdateSettings {
    /// How many hours lie between two looks for updates.
    pub check_interval_hours: u64,
    /// When updates were last looked for, in seconds of Unix time.
    pub last_check_time: Option<u64>,
    pub auto_update_enabled: bool,
    /// The update that was downloaded and waits for the next start.
    pub pending_install_path: Option<String>,
    /// The version of that update.
    pub pending_update_version: Option<String>,
    pub update_channel: UpdateChannel,
}

impl Default for UpdateSettings {
    fn default() -> (r: Self)
        ensures
            r.check_interval_hours == 6,
            r.last_check_time is None,
            r.auto_update_enabled,
            r.pending_install_path is None,
            r.pending_update_version is None,
            r.update_channel == channel_of(PKG_VERSION@),
    {
        UpdateSettings {
            check_interval_hours: 6,
            last_check_time: None,
            auto_update_enabled: true,
            pending_install_path: None,
            pending_update_version: None,
            update_channel: UpdateChannel::infer_from_installed_version(),
        }
    }
}

impl UpdateSettings {
    /// Updates are to be looked for: they are switched on, and the interval has passed since the
    /// last look.
    pub open spec fn due(self, now: u64) -> bool {
        self.auto_update_enabled && match self.last_check_time {
            Some(last) => now - last >= self.check_interval_hours * 3600,
            None => true,
        }
    }

    /// Whether updates are to be looked for at the given second of Unix time.
    pub fn should_check(&self, now: u64) -> (r: bool)
        requires
            self.auto_update_enabled ==> (self.last_check_time matches Some(last) ==> last <= now
                && self.check_interval_hours * 3600 <= u64::MAX),
        ensures
            r == self.due(now),
    {
        if !self.auto_update_enabled {
            return false;
        }
        match self.last_check_time {
            Some(last) => {
                let interval: u64 = self.check_interval_hours * 3600;
                !(now - last < interval)
            },
            None => true,
        }
    }

    /// Notes that updates were looked for.
    pub fn checked_at(&mut self, now: u64)
        ensures
            *final(self) == (UpdateSettings { last_check_time: Some(now), ..*old(self) }),
    {
        self.last_check_time = Some(now);
    }

    /// Whether an update waits to be installed; `exists` says whether its file is there.
    pub fn has_pending_install(&self, exists: bool) -> (r: bool)
        ensures
            r == (self.pending_install_path is Some && exists),
    {
        self.pending_install_path.is_some() && exists
    }

    /// The file of the update that waits, if it is there.
    pub fn get_pending_install_path(&self, exists: bool) -> (r: Option<String>)
        ensures
            r == (if exists {
                self.pending_install_path
            } else {
                None
            }),
    {
        if exists {
            copy_opt(&self.pending_install_path)
        } else {
            None
        }
    }

    /// Notes an update that was downloaded.
    pub fn set_pending_install(&mut self, path: &str, version: &str)
        ensures
            opt_view(final(self).pending_install_path) == Some(path@),
            opt_view(final(self).pending_update_version) == Some(version@),
            final(self).check_interval_hours == old(self).check_interval_hours,
            final(self).last_check_time == old(self).last_check_time,
            final(self).auto_update_enabled == old(self).auto_update_enabled,
            final(self).update_channel == old(self).update_channel,
    {
        self.pending_install_path = Some(path.to_owned());
        self.pending_update_version = Some(version.to_owned());
    }

    /// Forgets the update that waits.
    pub fn clear_pending_install(&mut self)
        ensures
            *final(self) == (UpdateSettings {
                pending_install_path: None,
                pending_update_version: None,
                ..*old(self)
            }),
    {
        self.pending_install_path = None;
        self.pending_update_version = None;
    }

    /// The version of the update that waits.
    pub fn get_pending_update_version(&self) -> (r: Option<String>)
        ensures
            r == self.pending_update_version,
    {
        copy_opt(&self.pending_update_version)
    }
}

/// A release as the API of the repository lists it.
#[derive(Debug, Clone)]
pub struct GitHubRelease {
    pub tag_name: String,
    pub name: String,
    pub published_at: String,
    pub assets: Vec<GitHubAsset>,
    pub draft: bool,
    pub prerelease: bool,
}

/// A file of a release.
#[derive(Debug, Clone)]
pub struct GitHubAsset {
    pub name: String,
    pub browser_download_url: String,
    pub size: u64,
}

/// An update that is offered.
#[derive(Debug, Clone, PartialEq)]
pub struct UpdateInfo {
    pub version: String,
    pub release_name: String,
    pub published_at: Timestamp,
    pub download_url: String,
    pub download_size: u64,
}

/// The release belongs to the channel: it is neither a draft nor the rolling one, and it is a
/// pre-release, by its mark or by its tag, exactly on the beta channel.
pub open spec fn eligible(release: GitHubRelease, channel: UpdateChannel) -> bool {
    &&& !release.draft
    &&& release.tag_name@ != "rolling"@
    &&& (release.prerelease || has_prerelease(release.tag_name@)) == (channel
        == UpdateChannel::Beta)
}

/// Whether the release belongs to the channel.
pub fn release_eligible_for_channel(release: &GitHubRelease, channel: UpdateChannel) -> (r: bool)
    ensures
        r == eligible(*release, channel),
{
    if release.draft || same(release.tag_name.as_str(), "rolling") {
        return false;
    }
    match channel {
        UpdateChannel::Stable => {
            if release.prerelease {
                return false;
            }
            !version_has_prerelease(release.tag_name.as_str())
        },
        UpdateChannel::Beta => {
            if release.prerelease {
                return true;
            }
            version_has_prerelease(release.tag_name.as_str())
        },
    }
}

/// The release belongs to the channel and is newer than the version that runs.
pub open spec fn offered(release: GitHubRelease, channel: UpdateChannel, current: Seq<char>) -> bool {
    &&& eligible(release, channel)
    &&& newer(strip_front(release.tag_name@, 'v'), strip_front(current, 'v'))
}

/// The first of the releases that belongs to the channel, has a file for this platform and is newer
/// than the version that runs.
pub fn select_release_for_channel<F: Fn(&Vec<GitHubAsset>) -> bool>(
    releases: Vec<GitHubRelease>,
    channel: UpdateChannel,
    current_version: &str,
    has_platform_asset: F,
) -> (r: Option<GitHubRelease>)
    requires
        forall|a: &Vec<GitHubAsset>| call_requires(has_platform_asset, (a,)),
    ensures
        match r {
            Some(release) => exists|i: int|
                {
                    &&& 0 <= i < releases@.len()
                    &&& #[trigger] releases@[i] == release
                    &&& offered(release, channel, current_version@)
                    &&& call_ensures(has_platform_asset, (&release.assets,), true)
                    &&& forall|k: int|
                        0 <= k < i ==> passed_over(
                            has_platform_asset,
                            #[trigger] releases@[k],
                            channel,
                            current_version@,
                        )
                },
            None => forall|k: int|
                0 <= k < releases@.len() ==> passed_over(
                    has_platform_asset,
                    #[trigger] releases@[k],
                    channel,
                    current_version@,
                ),
        },
{
    let mut releases = releases;
    let current = UpdateChecker::extract_version(current_version);
    let mut i: usize = 0;
    let mut found: Option<usize> = None;
    while i < releases.len() && found.is_none()
        invariant
            i <= releases@.len(),
            current@ == strip_front(current_version@, 'v'),
            forall|a: &Vec<GitHubAsset>| call_requires(has_platform_asset, (a,)),
            found matches Some(f) ==> {
                &&& f < releases@.len()
                &&& offered(releases@[f as int], channel, current_version@)
                &&& call_ensures(has_platform_asset, (&releases@[f as int].assets,), true)
                &&& forall|k: int|
                    0 <= k < f ==> passed_over(
                        has_platform_asset,
                        #[trigger] releases@[k],
                        channel,
                        current_version@,
                    )
            },
            found is None ==> forall|k: int|
                0 <= k < i ==> passed_over(
                    has_platform_asset,
                    #[trigger] releases@[k],
                    channel,
                    current_version@,
                ),
        decreases releases@.len() - i + (if found is None {
            1int
        } else {
            0int
        }),
    {
        let release = &releases[i];
        if release_eligible_for_channel(release, channel) {
            let has_asset = has_platform_asset(&release.assets);
            if has_asset {
                let v = UpdateChecker::extract_version(release.tag_name.as_str());
                if UpdateChecker::is_newer_version(v.as_str(), current.as_str()) {
                    found = Some(i);
                }
            }
        }
        if found.is_none() {
            i += 1;
        }
    }
    match found {
        Some(f) => Some(releases.swap_remove(f)),
        None => None,
    }
}

/// The release does not belong to the channel, has no file for the platform, or is not newer.
pub open spec fn passed_over<F: Fn(&Vec<GitHubAsset>) -> bool>(
    has_platform_asset: F,
    release: GitHubRelease,
    channel: UpdateChannel,
    current: Seq<char>,
) -> bool {
    !offered(release, channel, current) || call_ensures(
        has_platform_asset,
        (&release.assets,),
        false,
    )
}

/// No update leads back: what is offered is newer than the version that runs, and the version that
/// runs is never newer than what is offered.
pub proof fn law_update_never_leads_back(
    release: GitHubRelease,
    channel: UpdateChannel,
    current: Seq<char>,
)
    requires
        offered(release, channel, current),
    ensures
        !newer(strip_front(current, 'v'), strip_front(release.tag_name@, 'v')),
{
    crate::versions::law_newer_asymmetric(
        strip_front(release.tag_name@, 'v'),
        strip_front(current, 'v'),
    );
}

/// Every release that is neither a draft nor the rolling one belongs to exactly one channel.
pub proof fn law_channels_apart(release: GitHubRelease)
    ensures
        !(eligible(release, UpdateChannel::Stable) && eligible(release, UpdateChannel::Beta)),
        !release.draft && release.tag_name@ != "rolling"@ ==> eligible(
            release,
            UpdateChannel::Stable,
        ) || eligible(release, UpdateChannel::Beta),
{
}

/// The stable channel has the full releases and nothing else, the beta channel the pre-releases and
/// nothing else: what is marked as one, or has a hyphen in its tag. Drafts and the rolling release
/// are in neither.
pub proof fn law_channel_of_release(release: GitHubRelease)
    ensures
        ({
            let early = release.prerelease || release.tag_name@.contains('-');
            let shown = !release.draft && release.tag_name@ != "rolling"@;
            &&& eligible(release, UpdateChannel::Stable) == (shown && !early)
            &&& eligible(release, UpdateChannel::Beta) == (shown && early)
        }),
{
    lemma_strip_keeps_hyphen(release.tag_name@);
}

/// The channel that a version belongs to is the one on which a release with that tag is offered.
pub proof fn law_channel_of_version(version: Seq<char>)
    ensures
        channel_of(version) == UpdateChannel::Beta <==> version.contains('-'),
{
    lemma_strip_keeps_hyphen(version);
}

proof fn lemma_strip_keeps_hyphen(s: Seq<char>)
    ensures
        strip_front(s, 'v').contains('-') == s.contains('-'),
    decreases s.len(),
{
    if s.len() > 0 && s[0] == 'v' {
        let rest = s.drop_first();
        lemma_strip_keeps_hyphen(rest);
        if s.contains('-') {
            let k = choose|k: int| 0 <= k < s.len() && s[k] == '-';
            assert(rest[k - 1] == '-');
        }
        if rest.contains('-') {
            let k = choose|k: int| 0 <= k < rest.len() && rest[k] == '-';
            assert(s[k + 1] == '-');
        }
    }
}

/// A release whose tag is three numbers is offered on the stable channel to a program with smaller
/// numbers, and to no other.
pub proof fn law_offered_by_numbers(
    release: GitHubRelease,
    a: u64,
    b: u64,
    c: u64,
    d: u64,
    e: u64,
    f: u64,
)
    requires
        !release.draft,
        !release.prerelease,
        release.tag_name@ == seq!['v'] + three_numbers(a, b, c),
    ensures
        offered(release, UpdateChannel::Stable, three_numbers(d, e, f)) <==> a > d || a == d && (b
            > e || b == e && c > f),
        !offered(release, UpdateChannel::Beta, three_numbers(d, e, f)),
{
    let s = three_numbers(a, b, c);
    let t = three_numbers(d, e, f);
    let tag = seq!['v'] + s;
    law_numbers_decide(a, b, c, d, e, f);
    lemma_three_numbers(a, b, c);
    lemma_three_numbers(d, e, f);
    assert(tag.drop_first() =~= s);
    assert(strip_front(s, 'v') == s);
    assert(strip_front(tag, 'v') == s);
    assert(strip_front(t, 'v') == t);
    assert(!tag.contains('-')) by {
        if tag.contains('-') {
            let k = choose|k: int| 0 <= k < tag.len() && tag[k] == '-';
            assert(s[k - 1] == '-');
        }
    }
    reveal_strlit("rolling");
    assert(tag != "rolling"@) by {
        assert("rolling"@[0] == 'r');
    }
    law_channel_of_release(release);
}

proof fn lemma_three_numbers(a: u64, b: u64, c: u64)
    ensures
        three_numbers(a, b, c).len() > 0,
        three_numbers(a, b, c)[0] != 'v',
        !three_numbers(a, b, c).contains('-'),
{
    let (x, y, z) = (decimal(a as nat), decimal(b as nat), decimal(c as nat));
    crate::text::lemma_decimal_digits(a as nat);
    crate::text::lemma_decimal_digits(b as nat);
    crate::text::lemma_decimal_digits(c as nat);
    let s = three_numbers(a, b, c);
    assert(s[0] == x[0]);
    assert(crate::text::is_digit(x[0]));
    assert forall|i: int| 0 <= i < s.len() implies s[i] != '-' by {
        if i < x.len() {
            assert(s[i] == x[i]);
            assert(crate::text::is_digit(x[i]));
        } else if i > x.len() {
            let k = i - x.len() - 1;
            if k < y.len() {
                assert(s[i] == y[k]);
                assert(crate::text::is_digit(y[k]));
            } else if k > y.len() {
                assert(s[i] == z[k - y.len() - 1]);
                assert(crate::text::is_digit(z[k - y.len() - 1]));
            }
        }
    }
}

/// Updates are looked for again once the interval of hours has passed since the last look, and not
/// before; without a last look at once, and where they are switched off never.
pub proof fn law_check_interval(settings: UpdateSettings, now: u64)
    ensures
        !settings.auto_update_enabled ==> !settings.due(now),
        settings.auto_update_enabled && settings.last_check_time is None ==> settings.due(now),
        settings.auto_update_enabled ==> (settings.last_check_time matches Some(last)
            ==> settings.due(now) == (now >= last + settings.check_interval_hours * 60 * 60)),
{
}

// Files for a platform.

/// The platforms for which there are releases.
#[derive(Debug, Clone, Copy, PartialEq, Eq, Structural)]
pub enum Platform {
    MacArm,
    MacIntel,
    Windows,
    Linux,
    Other,
}

impl Platform {
    /// The ending of the file for the platform; none where there is no such file.
    pub open spec fn ending(self) -> Option<Seq<char>> {
        match self {
            Platform::MacArm | Platform::MacIntel => Some(".dmg"@),
            Platform::Windows => Some(".exe"@),
            Platform::Linux => Some(".AppImage"@),
            Platform::Other => None,
        }
    }

    /// The processor that a file for the platform may name.
    pub open spec fn processor(self) -> Option<Seq<char>> {
        match self {
            Platform::MacArm => Some("aarch64"@),
            Platform::MacIntel => Some("x86_64"@),
            _ => None,
        }
    }
}

/// The file has the ending and, where one is given, names the processor.
pub open spec fn suits(asset: GitHubAsset, ending: Seq<char>, processor: Option<Seq<char>>) -> bool {
    has_suffix(asset.name@, ending) && (processor matches Some(p) ==> has_text(asset.name@, p))
}

/// The place of the first file that suits, or the number of files.
pub open spec fn first_suiting(
    assets: Seq<GitHubAsset>,
    ending: Seq<char>,
    processor: Option<Seq<char>>,
) -> int
    decreases assets.len(),
{
    if assets.len() == 0 || suits(assets[0], ending, processor) {
        0
    } else {
        1 + first_suiting(assets.drop_first(), ending, processor)
    }
}

/// The place of the file for a platform: the first one for its processor, else the first one with
/// the platform's ending; the number of files if there is none.
pub open spec fn platform_file(assets: Seq<GitHubAsset>, platform: Platform) -> int {
    match platform.ending() {
        None => assets.len() as int,
        Some(ending) => {
            let named = first_suiting(assets, ending, platform.processor());
            if named < assets.len() {
                named
            } else {
                first_suiting(assets, ending, None)
            }
        },
    }
}

proof fn lemma_first_suiting(assets: Seq<GitHubAsset>, ending: Seq<char>, processor: Option<Seq<char>>)
    ensures
        0 <= first_suiting(assets, ending, processor) <= assets.len(),
        first_suiting(assets, ending, processor) < assets.len() ==> suits(
            assets[first_suiting(assets, ending, processor)],
            ending,
            processor,
        ),
        forall|k: int|
            0 <= k < first_suiting(assets, ending, processor) ==> !suits(
                #[trigger] assets[k],
                ending,
                processor,
            ),
    decreases assets.len(),
{
    if assets.len() > 0 && !suits(assets[0], ending, processor) {
        let rest = assets.drop_first();
        lemma_first_suiting(rest, ending, processor);
        assert forall|k: int| 0 <= k < first_suiting(assets, ending, processor) implies !suits(
            #[trigger] assets[k],
            ending,
            processor,
        ) by {
            if k > 0 {
                assert(assets[k] == rest[k - 1]);
            }
        }
    }
}

/// The name ends with the text.
pub open spec fn name_ends(asset: GitHubAsset, ending: Seq<char>) -> bool {
    ending.len() <= asset.name@.len() && forall|i: int|
        0 <= i < ending.len() ==> asset.name@[asset.name@.len() - ending.len() + i]
            == #[trigger] ending[i]
}

/// The text stands somewhere in the name.
pub open spec fn name_has(asset: GitHubAsset, text: Seq<char>) -> bool {
    exists|j: int|
        0 <= j && j + text.len() <= asset.name@.len() && #[trigger] asset.name@.subrange(
            j,
            j + text.len(),
        ) == text
}

/// The place is that of the file to take among those with the ending: the first one that names the
/// processor, or the first one if none names it.
pub open spec fn is_choice(
    assets: Seq<GitHubAsset>,
    ending: Seq<char>,
    processor: Seq<char>,
    at: int,
) -> bool {
    &&& 0 <= at < assets.len()
    &&& name_ends(assets[at], ending)
    &&& if exists|i: int|
        0 <= i < assets.len() && name_ends(#[trigger] assets[i], ending) && name_has(
            assets[i],
            processor,
        ) {
        name_has(assets[at], processor) && forall|k: int|
            0 <= k < at && name_ends(#[trigger] assets[k], ending) ==> !name_has(
                assets[k],
                processor,
            )
    } else {
        forall|k: int| 0 <= k < at ==> !name_ends(#[trigger] assets[k], ending)
    }
}

proof fn lemma_names(asset: GitHubAsset, ending: Seq<char>, text: Seq<char>)
    ensures
        has_suffix(asset.name@, ending) == name_ends(asset, ending),
        has_text(asset.name@, text) == name_has(asset, text),
{
    crate::text::lemma_has_text(asset.name@, text);
    let s = asset.name@;
    if ending.len() <= s.len() {
        let back = s.skip(s.len() - ending.len());
        if name_ends(asset, ending) {
            assert(back =~= ending) by {
                assert forall|i: int| 0 <= i < ending.len() implies back[i] == ending[i] by {}
            }
        }
        if back == ending {
            assert forall|i: int| 0 <= i < ending.len() implies s[s.len() - ending.len() + i]
                == #[trigger] ending[i] by {
                assert(back[i] == ending[i]);
            }
        }
    }
}

/// Each platform takes a file with its ending whenever there is one: on a Mac the first disk image
/// that names its processor, or else the first disk image; on Windows the first installer and on
/// Linux the first image.
pub proof fn law_platform_file(assets: Seq<GitHubAsset>, platform: Platform)
    ensures
        ({
            let at = platform_file(assets, platform);
            let found = at < assets.len();
            let any = |ending: Seq<char>|
                exists|i: int| 0 <= i < assets.len() && name_ends(#[trigger] assets[i], ending);
            match platform {
                Platform::MacArm => found == any(".dmg"@) && (found ==> is_choice(
                    assets,
                    ".dmg"@,
                    "aarch64"@,
                    at,
                )),
                Platform::MacIntel => found == any(".dmg"@) && (found ==> is_choice(
                    assets,
                    ".dmg"@,
                    "x86_64"@,
                    at,
                )),
                Platform::Windows => found == any(".exe"@) && (found ==> name_ends(
                    assets[at],
                    ".exe"@,
                ) && forall|k: int| 0 <= k < at ==> !name_ends(#[trigger] assets[k], ".exe"@)),
                Platform::Linux => found == any(".AppImage"@) && (found ==> name_ends(
                    assets[at],
                    ".AppImage"@,
                ) && forall|k: int|
                    0 <= k < at ==> !name_ends(#[trigger] assets[k], ".AppImage"@)),
                Platform::Other => !found,
            }
        }),
        platform_file(assets, platform) >= 0,
{
    if let Some(ending) = platform.ending() {
        let p = platform.processor();
        lemma_first_suiting(assets, ending, p);
        lemma_first_suiting(assets, ending, None);
        let text = match p {
            Some(s) => s,
            None => Seq::empty(),
        };
        assert forall|i: int| 0 <= i < assets.len() implies suits(
            #[trigger] assets[i],
            ending,
            None,
        ) == name_ends(assets[i], ending) && (p is Some ==> suits(assets[i], ending, p) == (
        name_ends(assets[i], ending) && name_has(assets[i], text))) by {
            lemma_names(assets[i], ending, text);
        }
        let at = platform_file(assets, platform);
        let named = first_suiting(assets, ending, p);
        if exists|i: int| 0 <= i < assets.len() && name_ends(#[trigger] assets[i], ending) {
            let i = choose|i: int| 0 <= i < assets.len() && name_ends(#[trigger] assets[i], ending);
            assert(suits(assets[i], ending, None));
        }
        if p is Some && named < assets.len() {
            assert(suits(assets[named], ending, p));
            assert(name_ends(assets[named], ending) && name_has(assets[named], text));
        }
    }
}

fn find_suiting(assets: &Vec<GitHubAsset>, ending: &str, processor: Option<&str>) -> (r: Option<usize>)
    ensures
        ({
            let p = match processor {
                Some(s) => Some(s@),
                None => None,
            };
            match r {
                Some(i) => i < assets@.len() && i == first_suiting(assets@, ending@, p),
                None => first_suiting(assets@, ending@, p) >= assets@.len(),
            }
        }),
{
    let ghost p = match processor {
        Some(s) => Some(s@),
        None => None,
    };
    let ghost all = assets@;
    let mut i: usize = 0;
    assert(all.skip(0) =~= all);
    while i < assets.len()
        invariant
            i <= assets@.len(),
            all == assets@,
            p == (match processor {
                Some(s) => Some(s@),
                None => None,
            }),
            first_suiting(all, ending@, p) == i + first_suiting(all.skip(i as int), ending@, p),
        decreases assets@.len() - i,
    {
        let ghost rest = all.skip(i as int);
        assert(rest.drop_first() =~= all.skip(i + 1));
        assert(rest[0] == all[i as int]);
        let named = match processor {
            Some(s) => contains(assets[i].name.as_str(), s),
            None => true,
        };
        if named && ends_with(assets[i].name.as_str(), ending) {
            return Some(i);
        }
        i += 1;
    }
    None
}

/// The place of the file for a platform, if there is one.
pub fn try_find_platform_asset(assets: &Vec<GitHubAsset>, platform: Platform) -> (r: Option<usize>)
    ensures
        match r {
            Some(i) => i < assets@.len() && i == platform_file(assets@, platform),
            None => platform_file(assets@, platform) >= assets@.len(),
        },
{
    let (ending, processor) = match platform {
        Platform::MacArm => (".dmg", Some("aarch64")),
        Platform::MacIntel => (".dmg", Some("x86_64")),
        Platform::Windows => (".exe", None),
        Platform::Linux => (".AppImage", None),
        Platform::Other => {
            return None;
        },
    };
    if processor.is_some() {
        if let Some(i) = find_suiting(assets, ending, processor) {
            return Some(i);
        }
    }
    find_suiting(assets, ending, None)
}

/// Why a look for updates failed.
#[derive(Debug, Clone, Copy, PartialEq, Eq, Structural)]
pub enum UpdateError {
    /// The release has no file for the platform.
    NoAsset,
    /// The date of the release cannot be read.
    PublishedAt,
}

/// What a release offers, given when it was published, if its date can be read.
pub fn update_info_with(release: &GitHubRelease, platform: Platform, published_at: Option<(i64, u32)>) -> (r:
    Result<UpdateInfo, UpdateError>)
    ensures
        info_is(r, *release, platform, published_at),
{
    let at: usize = match try_find_platform_asset(&release.assets, platform) {
        Some(i) => i,
        None => {
            return Err(UpdateError::NoAsset);
        },
    };
    let published_at = match published_at {
        Some((seconds, nanos)) => Timestamp { seconds, nanos },
        None => {
            return Err(UpdateError::PublishedAt);
        },
    };
    Ok(
        UpdateInfo {
            version: UpdateChecker::extract_version(release.tag_name.as_str()),
            release_name: release.name.clone(),
            published_at,
            download_url: release.assets[at].browser_download_url.clone(),
            download_size: release.assets[at].size,
        },
    )
}

/// The outcome is what a release offers on a platform.
pub open spec fn info_is(
    r: Result<UpdateInfo, UpdateError>,
    release: GitHubRelease,
    platform: Platform,
    published_at: Option<(i64, u32)>,
) -> bool {
    let at = platform_file(release.assets@, platform);
    match r {
        Ok(info) => {
            &&& at < release.assets@.len()
            &&& info.version@ == strip_front(release.tag_name@, 'v')
            &&& info.release_name@ == release.name@
            &&& published_at == Some((info.published_at.seconds, info.published_at.nanos))
            &&& info.download_url@ == release.assets@[at].browser_download_url@
            &&& info.download_size == release.assets@[at].size
        },
        Err(UpdateError::NoAsset) => at >= release.assets@.len(),
        Err(UpdateError::PublishedAt) => at < release.assets@.len() && published_at is None,
    }
}

/// What a release offers on a platform.
pub fn update_info(release: &GitHubRelease, platform: Platform) -> (r: Result<
    UpdateInfo,
    UpdateError,
>)
    ensures
        info_is(r, *release, platform, rfc3339_time(release.published_at@)),
{
    update_info_with(release, platform, parse_rfc3339(release.published_at.as_str()))
}

/// Looks for updates and installs them.
#[derive(Debug)]
pub struct UpdateChecker {
    repo: Repo,
    current_version: String,
}

impl View for UpdateChecker {
    type V = (Seq<char>, Seq<char>);

    /// The directory and the version that runs.
    closed spec fn view(&self) -> (Seq<char>, Seq<char>) {
        (self.repo@, self.current_version@)
    }
}

impl UpdateChecker {
    pub fn new(repo: Repo) -> (r: Self)
        ensures
            r@ == (repo@, PKG_VERSION@),
    {
        UpdateChecker { repo, current_version: PKG_VERSION.to_owned() }
    }

    pub fn current_version(&self) -> (r: &str)
        ensures
            r@ == self@.1,
    {
        self.current_version.as_str()
    }

    /// The file in which the settings are kept.
    pub fn settings_file(&self) -> (r: String)
        ensures
            r@ == in_directory(self@.0, SETTINGS_FILE@),
    {
        proof {
            reveal_strlit("update_settings.yml");
        }
        self.repo.file(SETTINGS_FILE)
    }

    /// The file to which an update is downloaded.
    pub fn download_file(&self) -> (r: String)
        ensures
            r@ == in_directory(self@.0, "update_temp.bin"@),
    {
        proof {
            reveal_strlit("update_temp.bin");
        }
        self.repo.file("update_temp.bin")
    }

    /// The file of the script that installs an update.
    pub fn script_file(&self) -> (r: String)
        ensures
            r@ == in_directory(self@.0, "update_install.sh"@),
    {
        proof {
            reveal_strlit("update_install.sh");
        }
        self.repo.file("update_install.sh")
    }

    /// Where the releases are listed.
    pub fn releases_url() -> (r: String)
        ensures
            r@ == GITHUB_API_BASE@ + "/repos/"@ + REPO_OWNER@ + "/"@ + REPO_NAME@
                + "/releases?per_page=100"@,
    {
        let repo = cat5(GITHUB_API_BASE, "/repos/", REPO_OWNER, "/", REPO_NAME);
        cat(repo.as_str(), "/releases?per_page=100")
    }

    /// A tag without leading `v`s.
    pub fn extract_version(tag: &str) -> (r: String)
        ensures
            r@ == strip_front(tag@, 'v'),
    {
        trim_start_matches(tag, 'v')
    }

    /// Whether the first version is strictly newer than the second, by the order of versions and
    /// pre-releases; build metadata does not count.
    pub fn is_newer_version(version1: &str, version2: &str) -> (r: bool)
        ensures
            r == newer(version1@, version2@),
    {
        is_newer(version1, version2)
    }

    /// The release to offer, given the settings and the releases in the order of the API: none
    /// where updates are switched off.
    pub fn check_for_updates(
        &self,
        settings: &UpdateSettings,
        releases: Vec<GitHubRelease>,
        platform: Platform,
    ) -> (r: Option<GitHubRelease>)
        ensures
            match r {
                Some(release) => settings.auto_update_enabled && exists|i: int|
                    {
                        &&& 0 <= i < releases@.len()
                        &&& #[trigger] releases@[i] == release
                        &&& offered_here(release, settings.update_channel, self@.1, platform)
                        &&& forall|k: int|
                            0 <= k < i ==> !offered_here(
                                #[trigger] releases@[k],
                                settings.update_channel,
                                self@.1,
                                platform,
                            )
                    },
                None => !settings.auto_update_enabled || forall|k: int|
                    0 <= k < releases@.len() ==> !offered_here(
                        #[trigger] releases@[k],
                        settings.update_channel,
                        self@.1,
                        platform,
                    ),
            },
    {
        if !settings.auto_update_enabled {
            return None;
        }
        let has_asset = |assets: &Vec<GitHubAsset>| -> (b: bool)
            ensures
                b == (platform_file(assets@, platform) < assets@.len()),
            { try_find_platform_asset(assets, platform).is_some() };
        let r = select_release_for_channel(
            releases,
            settings.update_channel,
            self.current_version.as_str(),
            has_asset,
        );
        proof {
            assert forall|k: int|
                0 <= k < releases@.len() && #[trigger] passed_over(
                    has_asset,
                    releases@[k],
                    settings.update_channel,
                    self@.1,
                ) implies !offered_here(
                releases@[k],
                settings.update_channel,
                self@.1,
                platform,
            ) by {}
        }
        r
    }
}

/// The release is offered, and has a file for the platform.
pub open spec fn offered_here(
    release: GitHubRelease,
    channel: UpdateChannel,
    current: Seq<char>,
    platform: Platform,
) -> bool {
    offered(release, channel, current) && platform_file(release.assets@, platform)
        < release.assets@.len()
}

/// What is offered can be described: it has a file for the platform.
pub proof fn law_offered_has_file(
    release: GitHubRelease,
    channel: UpdateChannel,
    current: Seq<char>,
    platform: Platform,
    r: Result<UpdateInfo, UpdateError>,
    published_at: Option<(i64, u32)>,
)
    requires
        offered_here(release, channel, current, platform),
        info_is(r, release, platform, published_at),
    ensures
        r != Err::<UpdateInfo, UpdateError>(UpdateError::NoAsset),
        published_at is Some ==> r is Ok,
{
}

// Installing.

/// How an update is installed.
#[derive(Debug, Clone, Copy, PartialEq, Eq, Structural)]
pub enum InstallStep {
    /// Nothing is installed: the user interface is being tried out.
    Skip,
    /// Mount the disk image and copy the application.
    DiskImage,
    /// Run the installer.
    Installer,
    /// Replace the running file.
    ReplaceFile,
}

/// Why an update is not installed.
#[derive(Debug, Clone, Copy, PartialEq, Eq, Structural)]
pub enum InstallError {
    /// The downloaded file is not there.
    MissingFile,
    /// The platform has no updates.
    Unsupported,
}

/// The value of `DATUM_UPDATE_FAKE` with which nothing is installed.
pub open spec fn is_fake(value: Option<String>) -> bool {
    value is Some && value->0@ == "1"@
}

pub fn fake_install(value: &Option<String>) -> (r: bool)
    ensures
        r == is_fake(*value),
{
    match value {
        Some(v) => same(v.as_str(), "1"),
        None => false,
    }
}

/// How a downloaded update is installed on a platform.
pub open spec fn install_step(exists: bool, fake: bool, platform: Platform) -> Result<
    InstallStep,
    InstallError,
> {
    if !exists {
        Err(InstallError::MissingFile)
    } else if fake {
        Ok(InstallStep::Skip)
    } else {
        match platform {
            Platform::MacArm | Platform::MacIntel => Ok(InstallStep::DiskImage),
            Platform::Windows => Ok(InstallStep::Installer),
            Platform::Linux => Ok(InstallStep::ReplaceFile),
            Platform::Other => Err(InstallError::Unsupported),
        }
    }
}

/// An update is installed in the way of the file that the platform takes, exactly if the file is
/// there and the user interface is not just being tried out.
pub proof fn law_install_step(exists: bool, fake: Option<String>, platform: Platform)
    ensures
        ({
            let r = install_step(exists, is_fake(fake), platform);
            let tried_out = fake matches Some(f) && f@ == "1"@;
            &&& r == Err::<InstallStep, InstallError>(InstallError::MissingFile) <==> !exists
            &&& r == Ok::<InstallStep, InstallError>(InstallStep::Skip) <==> exists && tried_out
            &&& r == Ok::<InstallStep, InstallError>(InstallStep::DiskImage) <==> exists
                && !tried_out && platform.ending() == Some(".dmg"@)
            &&& r == Ok::<InstallStep, InstallError>(InstallStep::Installer) <==> exists
                && !tried_out && platform.ending() == Some(".exe"@)
            &&& r == Ok::<InstallStep, InstallError>(InstallStep::ReplaceFile) <==> exists
                && !tried_out && platform.ending() == Some(".AppImage"@)
            &&& r == Err::<InstallStep, InstallError>(InstallError::Unsupported) <==> exists
                && !tried_out && platform.ending() is None
        }),
{
    reveal_strlit(".dmg");
    reveal_strlit(".exe");
    reveal_strlit(".AppImage");
    assert(".dmg"@[1] == 'd' && ".exe"@[1] == 'e' && ".AppImage"@[1] == 'A');
}

/// How a downloaded update is installed on a platform.
pub fn apply_update(exists: bool, fake: &Option<String>, platform: Platform) -> (r: Result<
    InstallStep,
    InstallError,
>)
    ensures
        r == install_step(exists, is_fake(*fake), platform),
        r == (if !exists {
            Err(InstallError::MissingFile)
        } else if is_fake(*fake) {
            Ok(InstallStep::Skip)
        } else {
            match platform {
                Platform::MacArm | Platform::MacIntel => Ok(InstallStep::DiskImage),
                Platform::Windows => Ok(InstallStep::Installer),
                Platform::Linux => Ok(InstallStep::ReplaceFile),
                Platform::Other => Err(InstallError::Unsupported),
            }
        }),
{
    if !exists {
        return Err(InstallError::MissingFile);
    }
    if fake_install(fake) {
        return Ok(InstallStep::Skip);
    }
    match platform {
        Platform::MacArm | Platform::MacIntel => Ok(InstallStep::DiskImage),
        Platform::Windows => Ok(InstallStep::Installer),
        Platform::Linux => Ok(InstallStep::ReplaceFile),
        Platform::Other => Err(InstallError::Unsupported),
    }
}

/// The last of the texts that is not empty once trimmed, so trimmed.
pub open spec fn last_filled(parts: Seq<Seq<char>>) -> Option<Seq<char>>
    decreases parts.len(),
{
    if parts.len() == 0 {
        None
    } else if trimmed(parts.last()).len() > 0 {
        Some(trimmed(parts.last()))
    } else {
        last_filled(parts.drop_last())
    }
}

/// The mount point in the lines printed when a disk image is attached: the last column of the last
/// line that speaks of volumes and ends in a volume. A line that speaks of volumes but has no
/// column at all ends the search.
pub open spec fn mount_point_in(rows: Seq<Seq<char>>) -> Option<Seq<char>>
    decreases rows.len(),
{
    if rows.len() == 0 {
        None
    } else if !has_text(rows.last(), "/Volumes/"@) {
        mount_point_in(rows.drop_last())
    } else {
        match last_filled(split(rows.last(), '\t')) {
            None => None,
            Some(column) => if has_prefix(column, "/Volumes/"@) {
                Some(column)
            } else {
                mount_point_in(rows.drop_last())
            },
        }
    }
}

/// The last column that holds anything, without the whitespace around it.
pub proof fn law_last_filled(parts: Seq<Seq<char>>)
    ensures
        match last_filled(parts) {
            Some(t) => t.len() > 0 && exists|i: int|
                0 <= i < parts.len() && trimmed(#[trigger] parts[i]) == t && forall|k: int|
                    i < k < parts.len() ==> trimmed(#[trigger] parts[k]).len() == 0,
            None => forall|k: int|
                0 <= k < parts.len() ==> trimmed(#[trigger] parts[k]).len() == 0,
        },
    decreases parts.len(),
{
    if parts.len() > 0 {
        let front = parts.drop_last();
        law_last_filled(front);
        let last = parts[parts.len() - 1];
        if trimmed(last).len() == 0 {
            if let Some(t) = last_filled(parts) {
                let i = choose|i: int|
                    0 <= i < front.len() && trimmed(#[trigger] front[i]) == t && forall|k: int|
                        i < k < front.len() ==> trimmed(#[trigger] front[k]).len() == 0;
                assert(trimmed(parts[i]) == t);
                assert forall|k: int| i < k < parts.len() implies trimmed(
                    #[trigger] parts[k],
                ).len() == 0 by {
                    if k < front.len() {
                        assert(front[k] == parts[k]);
                    }
                }
            } else {
                assert forall|k: int| 0 <= k < parts.len() implies trimmed(
                    #[trigger] parts[k],
                ).len() == 0 by {
                    if k < front.len() {
                        assert(front[k] == parts[k]);
                    }
                }
            }
        } else {
            assert(trimmed(parts[parts.len() - 1]) == trimmed(last));
        }
    }
}

/// The mount point is the last column, trimmed, of a line that speaks of volumes, and stands below
/// them; it is that of the last line that speaks of volumes whose last column is a volume.
pub proof fn law_mount_point(rows: Seq<Seq<char>>)
    ensures
        mount_point_in(rows) matches Some(point) ==> has_prefix(point, "/Volumes/"@) && exists|i: int|
            0 <= i < rows.len() && has_text(#[trigger] rows[i], "/Volumes/"@) && last_filled(
                split(rows[i], '\t'),
            ) == Some(point) && forall|k: int|
                i < k < rows.len() && has_text(#[trigger] rows[k], "/Volumes/"@) ==> (last_filled(
                    split(rows[k], '\t'),
                ) matches Some(c) && !has_prefix(c, "/Volumes/"@)),
        mount_point_in(rows) is None ==> forall|i: int|
            0 <= i < rows.len() && has_text(#[trigger] rows[i], "/Volumes/"@) && (last_filled(
                split(rows[i], '\t'),
            ) matches Some(c) && has_prefix(c, "/Volumes/"@)) ==> exists|k: int|
                i < k < rows.len() && has_text(#[trigger] rows[k], "/Volumes/"@) && last_filled(
                    split(rows[k], '\t'),
                ) is None,
    decreases rows.len(),
{
    if rows.len() > 0 {
        let front = rows.drop_last();
        let n = front.len() as int;
        law_mount_point(front);
        let last = rows[n];
        if let Some(point) = mount_point_in(rows) {
            if has_text(last, "/Volumes/"@) && last_filled(split(last, '\t')) == Some(point)
                && has_prefix(point, "/Volumes/"@) {
            } else {
                let i = choose|i: int|
                    0 <= i < front.len() && has_text(#[trigger] front[i], "/Volumes/"@)
                        && last_filled(split(front[i], '\t')) == Some(point) && forall|k: int|
                        i < k < front.len() && has_text(#[trigger] front[k], "/Volumes/"@) ==> (
                        last_filled(split(front[k], '\t')) matches Some(c) && !has_prefix(
                            c,
                            "/Volumes/"@,
                        ));
                assert(rows[i] == front[i]);
                assert forall|k: int|
                    i < k < rows.len() && has_text(#[trigger] rows[k], "/Volumes/"@) implies (
                last_filled(split(rows[k], '\t')) matches Some(c) && !has_prefix(
                    c,
                    "/Volumes/"@,
                )) by {
                    if k < n {
                        assert(front[k] == rows[k]);
                    }
                }
            }
        } else {
            assert forall|i: int|
                0 <= i < rows.len() && has_text(#[trigger] rows[i], "/Volumes/"@) && (last_filled(
                    split(rows[i], '\t'),
                ) matches Some(c) && has_prefix(c, "/Volumes/"@)) implies exists|k: int|
                i < k < rows.len() && has_text(#[trigger] rows[k], "/Volumes/"@) && last_filled(
                    split(rows[k], '\t'),
                ) is None by {
                assert(i < n);
                if has_text(last, "/Volumes/"@) && last_filled(split(last, '\t')) is None {
                    assert(last_filled(split(rows[n], '\t')) is None);
                } else {
                    assert(front[i] == rows[i]);
                    let k = choose|k: int|
                        i < k < front.len() && has_text(#[trigger] front[k], "/Volumes/"@)
                            && last_filled(split(front[k], '\t')) is None;
                    assert(rows[k] == front[k]);
                }
            }
        }
    }
}

fn find_last_filled(parts: &Vec<String>) -> (r: Option<String>)
    ensures
        opt_view(r) == last_filled(views(parts@)),
{
    let ghost all = views(parts@);
    let mut n: usize = parts.len();
    assert(all.take(n as int) =~= all);
    while n > 0
        invariant
            n <= parts@.len(),
            all == views(parts@),
            last_filled(all) == last_filled(all.take(n as int)),
        decreases n,
    {
        let ghost front = all.take(n as int);
        assert(front.drop_last() =~= all.take(n - 1));
        assert(front.last() == parts@[n - 1]@);
        let t = trim(parts[n - 1].as_str());
        if !t.as_str().is_empty() {
            return Some(t);
        }
        n -= 1;
    }
    None
}

/// The mount point in what was printed when a disk image was attached.
pub fn parse_hdiutil_attach_mount_point(stdout: &str) -> (r: Option<String>)
    ensures
        opt_view(r) == mount_point_in(lines(stdout@)),
{
    let rows = lines_of(stdout);
    let ghost all = views(rows@);
    let mut n: usize = rows.len();
    assert(all.take(n as int) =~= all);
    while n > 0
        invariant
            n <= rows@.len(),
            all == views(rows@),
            all == lines(stdout@),
            mount_point_in(all) == mount_point_in(all.take(n as int)),
        decreases n,
    {
        let ghost front = all.take(n as int);
        assert(front.drop_last() =~= all.take(n - 1));
        assert(front.last() == rows@[n - 1]@);
        if contains(rows[n - 1].as_str(), "/Volumes/") {
            let columns = split_at_char(rows[n - 1].as_str(), '\t');
            match find_last_filled(&columns) {
                None => {
                    return None;
                },
                Some(column) => {
                    if starts_with(column.as_str(), "/Volumes/") {
                        return Some(column);
                    }
                },
            }
        }
        n -= 1;
    }
    None
}

/// Whether a file of a volume is an application: its extension is `app`.
pub fn is_app_bundle(file_name: &str) -> (r: bool)
    ensures
        r == (has_suffix(file_name@, ".app"@) && file_name@.len() > 4),
{
    ends_with(file_name, ".app") && file_name.unicode_len() > 4
}

/// The script that installs an update after the application has ended.
pub open spec fn install_script(platform: Platform, fake: bool) -> Seq<char> {
    match platform {
        Platform::MacArm | Platform::MacIntel => if fake {
            "open -a \"Datum\""@
        } else {
            "#!/bin/bash\nset -euo pipefail\nDMG=\"$1\"\nATTACH_OUT=$(hdiutil attach -nobrowse -readonly \"$DMG\")\nVOLUME=$(echo \"$ATTACH_OUT\" | grep '/Volumes/' | tail -n1 | awk -F'\t' '{gsub(/^ +| +$/,\"\",$NF); print $NF}')\n[ -n \"$VOLUME\" ] || { echo \"hdiutil attach: no /Volumes mount in output\" >&2; exit 1; }\nAPP=$(find \"$VOLUME\" -maxdepth 1 -name \"*.app\" -print -quit)\n[ -n \"$APP\" ] || { echo \"No .app bundle in DMG at $VOLUME\" >&2; exit 1; }\nDEST=\"/Applications/$(basename \"$APP\")\"\nrsync -a --delete \"$APP\" /Applications/\nhdiutil detach -force -quiet \"$VOLUME\"\nopen \"$DEST\"\n"@
        },
        _ => if fake {
            "#!/bin/bash\nexec \"$2\"\n"@
        } else {
            "#!/bin/bash\nset -e\nNEW=\"$1\"\nCURRENT=\"$2\"\ncp -f \"$NEW\" \"$CURRENT\"\nchmod +x \"$CURRENT\"\nexec \"$CURRENT\"\n"@
        },
    }
}

/// The script that installs an update after the application has ended, on a system with a shell.
pub fn get_install_script_unix(platform: Platform, fake: &Option<String>) -> (r: String)
    ensures
        r@ == install_script(platform, is_fake(*fake)),
{
    let fake = fake_install(fake);
    match platform {
        Platform::MacArm | Platform::MacIntel => {
            if fake {
                "open -a \"Datum\"".to_owned()
            } else {
                "#!/bin/bash\nset -euo pipefail\nDMG=\"$1\"\nATTACH_OUT=$(hdiutil attach -nobrowse -readonly \"$DMG\")\nVOLUME=$(echo \"$ATTACH_OUT\" | grep '/Volumes/' | tail -n1 | awk -F'\t' '{gsub(/^ +| +$/,\"\",$NF); print $NF}')\n[ -n \"$VOLUME\" ] || { echo \"hdiutil attach: no /Volumes mount in output\" >&2; exit 1; }\nAPP=$(find \"$VOLUME\" -maxdepth 1 -name \"*.app\" -print -quit)\n[ -n \"$APP\" ] || { echo \"No .app bundle in DMG at $VOLUME\" >&2; exit 1; }\nDEST=\"/Applications/$(basename \"$APP\")\"\nrsync -a --delete \"$APP\" /Applications/\nhdiutil detach -force -quiet \"$VOLUME\"\nopen \"$DEST\"\n".to_owned()
            }
        },
        _ => {
            if fake {
                "#!/bin/bash\nexec \"$2\"\n".to_owned()
            } else {
                "#!/bin/bash\nset -e\nNEW=\"$1\"\nCURRENT=\"$2\"\ncp -f \"$NEW\" \"$CURRENT\"\nchmod +x \"$CURRENT\"\nexec \"$CURRENT\"\n".to_owned()
            }
        },
    }
}

/// A text between double quotes of a shell: the quotes in it are escaped.
pub open spec fn shell_quoted(s: Seq<char>) -> Seq<char> {
    replaced(s, "\""@, "\\\""@)
}

/// The shell command that waits for a process to end and then runs the script on the update and
/// the application.
pub fn wait_and_run(parent_pid: u32, script: &str, update: &str, exe: &str) -> (r: String)
    ensures
        r@ == "while kill -0 "@ + decimal(parent_pid as nat)
            + " 2>/dev/null; do sleep 0.5; done; chmod +x \""@ + script@ + "\" && \""@ + script@
            + "\" \""@ + shell_quoted(update@) + "\" \""@ + shell_quoted(exe@) + "\""@,
{
    proof {
        reveal_strlit("\"");
    }
    let pid = decimal_of(parent_pid as u64);
    let update = replace(update, "\"", "\\\"");
    let exe = replace(exe, "\"", "\\\"");
    let wait = cat5(
        "while kill -0 ",
        pid.as_str(),
        " 2>/dev/null; do sleep 0.5; done; chmod +x \"",
        script,
        "\" && \"",
    );
    let run = cat3(wait.as_str(), script, "\" \"");
    let with_update = cat3(run.as_str(), update.as_str(), "\" \"");
    cat3(with_update.as_str(), exe.as_str(), "\"")
}

/// A text between single quotes of PowerShell: the quotes in it are doubled.
pub open spec fn powershell_quoted(s: Seq<char>) -> Seq<char> {
    replaced(s, "'"@, "''"@)
}

/// The PowerShell command that waits for a process to end, runs the installer unless nothing is to
/// be installed, and starts the application.
pub fn powershell_script(parent_pid: u32, update: &str, exe: &str, fake: &Option<String>) -> (r: String)
    ensures
        ({
            let wait = "while (Get-Process -Id "@ + decimal(parent_pid as nat)
                + " -ErrorAction SilentlyContinue) { Start-Sleep -Milliseconds 500 }\nStart-Process -FilePath '"@;
            if is_fake(*fake) {
                r@ == wait + powershell_quoted(exe@) + "'\n"@
            } else {
                r@ == wait + powershell_quoted(update@)
                    + "' -ArgumentList '/S' -Wait\nStart-Process -FilePath '"@
                    + powershell_quoted(exe@) + "'\n"@
            }
        }),
{
    proof {
        reveal_strlit("'");
    }
    let pid = decimal_of(parent_pid as u64);
    let wait = cat3(
        "while (Get-Process -Id ",
        pid.as_str(),
        " -ErrorAction SilentlyContinue) { Start-Sleep -Milliseconds 500 }\nStart-Process -FilePath '",
    );
    let exe = replace(exe, "'", "''");
    if fake_install(fake) {
        cat3(wait.as_str(), exe.as_str(), "'\n")
    } else {
        let update = replace(update, "'", "''");
        cat5(
            wait.as_str(),
            update.as_str(),
            "' -ArgumentList '/S' -Wait\nStart-Process -FilePath '",
            exe.as_str(),
            "'\n",
        )
    }
}

/// What a release offers is its version and name, and the download of the file for the platform;
/// without such a file, or without a date that can be read, it offers nothing.
pub proof fn law_update_info(
    r: Result<UpdateInfo, UpdateError>,
    release: GitHubRelease,
    platform: Platform,
    seconds: i64,
    nanos: u32,
    version: Seq<char>,
)
    requires
        info_is(r, release, platform, Some((seconds, nanos))),
        platform_file(release.assets@, platform) < release.assets@.len(),
        release.tag_name@ == version || release.tag_name@ == seq!['v'] + version,
        version.len() == 0 || version[0] != 'v',
    ensures
        r matches Ok(info) && info.version@ == version && info.release_name@ == release.name@
            && info.published_at.seconds == seconds && info.published_at.nanos == nanos && {
            let at = platform_file(release.assets@, platform);
            info.download_url@ == release.assets@[at].browser_download_url@ && info.download_size
                == release.assets@[at].size
        },
{
    assert((seq!['v'] + version).drop_first() =~= version);
    assert(strip_front(version, 'v') == version);
    assert(strip_front(seq!['v'] + version, 'v') == strip_front(version, 'v'));
}

/// A release without a file for the platform offers nothing there, and neither does one without a
/// date.
pub proof fn law_no_update_info(
    r: Result<UpdateInfo, UpdateError>,
    release: GitHubRelease,
    platform: Platform,
    published_at: Option<(i64, u32)>,
)
    requires
        info_is(r, release, platform, published_at),
    ensures
        platform_file(release.assets@, platform) >= release.assets@.len() ==> r == Err::<
            UpdateInfo,
            UpdateError,
        >(UpdateError::NoAsset),
        platform_file(release.assets@, platform) < release.assets@.len() && published_at is None
            ==> r == Err::<UpdateInfo, UpdateError>(UpdateError::PublishedAt),
{
}

/// A release is offered on a platform exactly if it is offered at all and has a file with the ending
/// of the platform.
pub proof fn law_offered_on(release: GitHubRelease, channel: UpdateChannel, current: Seq<char>)
    ensures
        ({
            let has = |ending: Seq<char>|
                exists|i: int|
                    0 <= i < release.assets@.len() && name_ends(#[trigger] release.assets@[i], ending);
            let at = |platform: Platform| offered_here(release, channel, current, platform);
            let newer = offered(release, channel, current);
            &&& at(Platform::MacArm) == (newer && has(".dmg"@))
            &&& at(Platform::MacIntel) == (newer && has(".dmg"@))
            &&& at(Platform::Windows) == (newer && has(".exe"@))
            &&& at(Platform::Linux) == (newer && has(".AppImage"@))
            &&& !at(Platform::Other)
        }),
{
    law_platform_file(release.assets@, Platform::MacArm);
    law_platform_file(release.assets@, Platform::MacIntel);
    law_platform_file(release.assets@, Platform::Windows);
    law_platform_file(release.assets@, Platform::Linux);
    law_platform_file(release.assets@, Platform::Other);
}

/// A text without quotes is written as it is; each quote in a text is written so that it stands for
/// itself between quotes: after a backslash in a shell, twice in PowerShell.
pub proof fn law_quoted(plain: Seq<char>, rest: Seq<char>)
    ensures
        !plain.contains('"') ==> shell_quoted(plain) == plain && shell_quoted(
            plain + seq!['"'] + rest,
        ) == plain + seq!['\\', '"'] + shell_quoted(rest),
        !plain.contains('\'') ==> powershell_quoted(plain) == plain && powershell_quoted(
            plain + seq!['\''] + rest,
        ) == plain + seq!['\'', '\''] + powershell_quoted(rest),
{
    reveal_strlit("\"");
    reveal_strlit("\\\"");
    reveal_strlit("'");
    reveal_strlit("''");
    assert("\\\""@ =~= seq!['\\', '"']);
    assert("''"@ =~= seq!['\'', '\'']);
    if !plain.contains('"') {
        lemma_quoted(plain, '"', rest, "\""@, "\\\""@);
    }
    if !plain.contains('\'') {
        lemma_quoted(plain, '\'', rest, "'"@, "''"@);
    }
}

proof fn lemma_quoted(plain: Seq<char>, c: char, rest: Seq<char>, p: Seq<char>, t: Seq<char>)
    requires
        !plain.contains(c),
        p.len() == 1,
        p[0] == c,
    ensures
        replaced(plain, p, t) == plain,
        replaced(plain + seq![c] + rest, p, t) == plain + t + replaced(rest, p, t),
{
    assert forall|j: int| 0 <= j && j + p.len() <= plain.len() implies #[trigger] plain.subrange(
        j,
        j + p.len(),
    ) != p by {
        assert(plain.subrange(j, j + p.len())[0] == plain[j]);
    }
    crate::text::law_replaced(plain, p, t, -1);
    let s = plain + seq![c] + rest;
    let n = plain.len() as int;
    assert(s.subrange(n, n + p.len()) =~= p);
    assert forall|j: int| 0 <= j < n implies #[trigger] s.subrange(j, j + p.len()) != p by {
        assert(s.subrange(j, j + p.len())[0] == plain[j]);
    }
    crate::text::law_replaced_each(s, p, t, n);
    assert(s.take(n) =~= plain);
    assert(s.skip(n + p.len()) =~= rest);
}

/// What the scripts do. On a Mac the disk image is mounted, its application copied over the old one
/// and opened; elsewhere the new file replaces the running one and is run. Where nothing is to be
/// installed the application is only started again.
pub proof fn law_install_script()
    ensures
        install_script(Platform::MacArm, false) == install_script(Platform::MacIntel, false),
        install_script(Platform::MacArm, true) == install_script(Platform::MacIntel, true),
        install_script(Platform::MacArm, false)
            == "#!/bin/bash\nset -euo pipefail\nDMG=\"$1\"\nATTACH_OUT=$(hdiutil attach -nobrowse -readonly \"$DMG\")\nVOLUME=$(echo \"$ATTACH_OUT\" | grep '/Volumes/' | tail -n1 | awk -F'\t' '{gsub(/^ +| +$/,\"\",$NF); print $NF}')\n[ -n \"$VOLUME\" ] || { echo \"hdiutil attach: no /Volumes mount in output\" >&2; exit 1; }\nAPP=$(find \"$VOLUME\" -maxdepth 1 -name \"*.app\" -print -quit)\n[ -n \"$APP\" ] || { echo \"No .app bundle in DMG at $VOLUME\" >&2; exit 1; }\nDEST=\"/Applications/$(basename \"$APP\")\"\nrsync -a --delete \"$APP\" /Applications/\nhdiutil detach -force -quiet \"$VOLUME\"\nopen \"$DEST\"\n"@,
        install_script(Platform::MacArm, true) == "open -a \"Datum\""@,
        install_script(Platform::Linux, false)
            == "#!/bin/bash\nset -e\nNEW=\"$1\"\nCURRENT=\"$2\"\ncp -f \"$NEW\" \"$CURRENT\"\nchmod +x \"$CURRENT\"\nexec \"$CURRENT\"\n"@,
        install_script(Platform::Linux, true) == "#!/bin/bash\nexec \"$2\"\n"@,
{
}

} // verus!
