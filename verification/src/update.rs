//! Notices of newer releases: when to look for one, what counts as one and what is said of it.
//! Nothing here opens a ledger or installs anything.
use semver::Version;
use vstd::prelude::*;

use crate::text;
use crate::text::Text;

verus! {

/// How many seconds pass between two looks for a release.
pub const CHECK_INTERVAL: u64 = 86400;

/// The longest answer that is read, in bytes.
pub const MAX_RESPONSE: u64 = 65536;

/// The longest cache that is read, in bytes.
pub const MAX_CACHE: u64 = 4096;

/// What is remembered of the last look for a release.
#[verifier::ext_equal]
#[derive(Debug)]
pub struct Cache<T = String> {
    pub schema: u8,
    pub checked_at: u64,
    pub latest_tag: Option<T>,
}

impl DeepView for Cache {
    type V = Cache<Text>;

    open spec fn deep_view(&self) -> Cache<Text> {
        Cache {
            schema: self.schema,
            checked_at: self.checked_at,
            latest_tag: self.latest_tag.deep_view(),
        }
    }
}

/// A release as it is announced.
#[verifier::ext_equal]
#[derive(Debug)]
pub struct Release<T = String> {
    pub tag_name: T,
    pub draft: bool,
    pub prerelease: bool,
}

impl DeepView for Release {
    type V = Release<Text>;

    open spec fn deep_view(&self) -> Release<Text> {
        Release { tag_name: self.tag_name@, draft: self.draft, prerelease: self.prerelease }
    }
}

/// The parts of a semantic version.
#[verifier::ext_equal]
#[derive(Debug)]
pub struct Parts<T = String> {
    pub major: u64,
    pub minor: u64,
    pub patch: u64,
    pub pre: T,
    pub build: T,
}

impl DeepView for Parts {
    type V = Parts<Text>;

    open spec fn deep_view(&self) -> Parts<Text> {
        Parts {
            major: self.major,
            minor: self.minor,
            patch: self.patch,
            pre: self.pre@,
            build: self.build@,
        }
    }
}

/// What `semver::Version::parse` reads from a text: the three numbers, the pre-release and the
/// build metadata; nothing where it refuses the text.
pub uninterp spec fn parsed_version(text: Seq<char>) -> Option<
    (u64, u64, u64, Seq<char>, Seq<char>),
>;

/// The parts that a text stands for, if it is a version.
pub open spec fn parts_of(text: Text) -> Option<Parts<Text>> {
    match parsed_version(text) {
        Some((major, minor, patch, pre, build)) => Some(Parts { major, minor, patch, pre, build }),
        None => None,
    }
}

/// `semver::Version::parse` reads a semantic version. Which texts it accepts and what it reads
/// from them has a name here and is not spelled out.
#[verifier::external_body]
fn parse_version(text: &str) -> (result: Option<(u64, u64, u64, String, String)>)
    ensures
        result.deep_view() == parsed_version(text@),
{
    let version = Version::parse(text).ok()?;
    let pre = version.pre.as_str().to_owned();
    let build = version.build.as_str().to_owned();
    Some((version.major, version.minor, version.patch, pre, build))
}

/// Whether the three numbers of one version are greater than those of another, the first that
/// differs being decisive.
pub open spec fn numbers_exceed(left: Parts<Text>, right: Parts<Text>) -> bool {
    ||| left.major > right.major
    ||| left.major == right.major && left.minor > right.minor
    ||| left.major == right.major && left.minor == right.minor && left.patch > right.patch
}

/// Whether a release has precedence over a version: its numbers are greater, or they are the same
/// and the other is a pre-release. Build metadata does not count.
pub open spec fn is_newer(release: Parts<Text>, version: Parts<Text>) -> bool {
    ||| numbers_exceed(release, version)
    ||| release.major == version.major && release.minor == version.minor && release.patch
        == version.patch && version.pre.len() > 0
}

/// `semver::Version::cmp_precedence` compares the numbers and then the pre-releases of two
/// versions, a version without a pre-release being the greater, and disregards build metadata.
/// What it answers where the left one is a pre-release is not stated.
#[verifier::external_body]
fn exceeds(release: &str, version: &str) -> (answer: bool)
    requires
        parts_of(release@) is Some,
        parts_of(release@)->0.pre.len() == 0,
        parts_of(version@) is Some,
    ensures
        answer == is_newer(parts_of(release@)->0, parts_of(version@)->0),
{
    match (Version::parse(release), Version::parse(version)) {
        (Ok(left), Ok(right)) => left.cmp_precedence(&right).is_gt(),
        _ => false,
    }
}

fn read_version(text: &str) -> (result: Option<Parts>)
    ensures
        result.deep_view() == parts_of(text@),
{
    match parse_version(text) {
        Some((major, minor, patch, pre, build)) => Some(Parts { major, minor, patch, pre, build }),
        None => None,
    }
}

/// A tag without the `v` that it may begin with.
pub open spec fn bare_tag(tag: Text) -> Text {
    if tag.len() > 0 && tag[0] == 'v' {
        tag.skip(1)
    } else {
        tag
    }
}

fn strip_tag(tag: &str) -> (bare: String)
    ensures
        bare@ == bare_tag(tag@),
{
    let characters = text::chars_of(tag);
    let end = characters.len();
    if end > 0 && characters[0] == 'v' {
        text::text_of(&characters, 1, end)
    } else {
        tag.to_owned()
    }
}

/// The version that a tag stands for, if the version in it is no pre-release and the tag has at
/// most 128 bytes.
pub open spec fn stable_parts(tag: Text, parts: Option<Parts<Text>>) -> Option<Parts<Text>> {
    if vstd::utf8::encode_utf8(tag).len() > 128 || parts is None || parts->0.pre.len() > 0 {
        None
    } else {
        parts
    }
}

/// The version that a tag stands for, given what was read from it.
pub fn stable_from(tag: &str, parts: Option<Parts>) -> (result: Option<Parts>)
    ensures
        result.deep_view() == stable_parts(tag@, parts.deep_view()),
{
    if tag.as_bytes().len() > 128 {
        return None;
    }
    match parts {
        Some(parts) => if text::is_empty(parts.pre.as_str()) {
            Some(parts)
        } else {
            None
        },
        None => None,
    }
}

/// The version of a tag that is a release and no pre-release.
pub fn stable_version(tag: &str) -> (result: Option<Parts>)
    ensures
        result.deep_view() == stable_parts(tag@, parts_of(bare_tag(tag@))),
{
    stable_from(tag, read_version(strip_tag(tag).as_str()))
}

/// A version as text.
pub open spec fn version_text(parts: Parts<Text>) -> Text {
    text::decimal(parts.major as nat) + "."@ + text::decimal(parts.minor as nat) + "."@
        + text::decimal(parts.patch as nat) + if parts.pre.len() > 0 {
        "-"@ + parts.pre
    } else {
        ""@
    } + if parts.build.len() > 0 {
        "+"@ + parts.build
    } else {
        ""@
    }
}

/// A version as text.
pub fn format_version(parts: &Parts) -> (version: String)
    ensures
        version@ == version_text(parts.deep_view()),
{
    let mut version = text::decimal_text(parts.major as u128);
    version.append(".");
    version.append(text::decimal_text(parts.minor as u128).as_str());
    version.append(".");
    version.append(text::decimal_text(parts.patch as u128).as_str());
    let pre = if text::is_empty(parts.pre.as_str()) {
        "".to_owned()
    } else {
        text::joined("-", parts.pre.as_str())
    };
    version.append(pre.as_str());
    let build = if text::is_empty(parts.build.as_str()) {
        "".to_owned()
    } else {
        text::joined("+", parts.build.as_str())
    };
    version.append(build.as_str());
    version
}

/// What is said of a newer release.
pub open spec fn notice_text(current: Parts<Text>, latest: Parts<Text>, latest_tag: Text) -> Text {
    "[WARN] 有更新可用：claw-expense "@ + version_text(current) + " → "@ + version_text(latest)
        + "；请手动更新：https://github.com/yuzheng14/claw-expense/releases/tag/"@ + latest_tag
        + "（不会自动升级）"@
}

/// The notice of a release that is newer, and none of one that is not.
pub fn notice_of(current: &Parts, latest: &Parts, newer: bool, latest_tag: &str) -> (result: Option<
    String,
>)
    ensures
        result.deep_view() == if newer {
            Some(notice_text(current.deep_view(), latest.deep_view(), latest_tag@))
        } else {
            None
        },
{
    if !newer {
        return None;
    }
    let mut message: String = "[WARN] 有更新可用：claw-expense ".to_owned();
    message.append(format_version(current).as_str());
    message.append(" → ");
    message.append(format_version(latest).as_str());
    message.append("；请手动更新：https://github.com/yuzheng14/claw-expense/releases/tag/");
    message.append(latest_tag);
    message.append("（不会自动升级）");
    Some(message)
}

/// The notice for a running version and the tag of the latest release.
pub open spec fn noticed(current: Text, latest_tag: Text) -> Option<Text> {
    match (parts_of(current), stable_parts(latest_tag, parts_of(bare_tag(latest_tag)))) {
        (Some(running), Some(latest)) => if is_newer(latest, running) {
            Some(notice_text(running, latest, latest_tag))
        } else {
            None
        },
        _ => None,
    }
}

/// The notice for a running version and the tag of the latest release.
pub fn notice(current: &str, latest_tag: &str) -> (result: Option<String>)
    ensures
        result.deep_view() == noticed(current@, latest_tag@),
{
    let running = match read_version(current) {
        Some(running) => running,
        None => {
            return None;
        },
    };
    let latest = match stable_version(latest_tag) {
        Some(latest) => latest,
        None => {
            return None;
        },
    };
    let newer = exceeds(strip_tag(latest_tag).as_str(), current);
    notice_of(&running, &latest, newer, latest_tag)
}

/// Whether it is time to look for a release: the last look is unknown, lies in the future, or is
/// a day old.
pub open spec fn is_due(cache: Cache<Text>, now: u64) -> bool {
    cache.schema != 1 || cache.checked_at > now || now - cache.checked_at >= CHECK_INTERVAL
}

/// The cache that a look for a release starts from; one of another form counts as none.
pub open spec fn usable_cache(cache: Option<Cache<Text>>) -> Cache<Text> {
    match cache {
        Some(cache) => if cache.schema == 1 {
            cache
        } else {
            Cache { schema: 0, checked_at: 0, latest_tag: None }
        },
        None => Cache { schema: 0, checked_at: 0, latest_tag: None },
    }
}

/// What to do about releases.
#[verifier::ext_equal]
#[derive(Debug)]
pub enum Step<T = String> {
    /// Use what is remembered.
    Remembered { cache: Cache<T> },
    /// Keep this cache first, so that an attempt that fails is not repeated at once, and then
    /// look for the latest release.
    Fetch { cache: Cache<T> },
}

impl DeepView for Step {
    type V = Step<Text>;

    open spec fn deep_view(&self) -> Step<Text> {
        match self {
            Step::Remembered { cache } => Step::Remembered { cache: cache.deep_view() },
            Step::Fetch { cache } => Step::Fetch { cache: cache.deep_view() },
        }
    }
}

/// What to do about releases, given the cache that was read and the seconds since 1970.
pub open spec fn first_step(cache: Option<Cache<Text>>, now: u64) -> Step<Text> {
    let usable = usable_cache(cache);
    if is_due(usable, now) {
        Step::Fetch { cache: Cache { schema: 1, checked_at: now, latest_tag: usable.latest_tag } }
    } else {
        Step::Remembered { cache: usable }
    }
}

/// Decides what to do about releases.
pub fn begin_check(cache: Option<Cache>, now: u64) -> (step: Step)
    ensures
        step.deep_view() == first_step(cache.deep_view(), now),
{
    let usable = match cache {
        Some(cache) => if cache.schema == 1 {
            cache
        } else {
            Cache { schema: 0, checked_at: 0, latest_tag: None }
        },
        None => Cache { schema: 0, checked_at: 0, latest_tag: None },
    };
    let fresh = usable.schema == 1 && match now.checked_sub(usable.checked_at) {
        Some(age) => age < CHECK_INTERVAL,
        None => false,
    };
    if fresh {
        Step::Remembered { cache: usable }
    } else {
        Step::Fetch { cache: Cache { schema: 1, checked_at: now, latest_tag: usable.latest_tag } }
    }
}

/// The cache after a look for a release: a failed look keeps what was known.
pub open spec fn looked(cache: Cache<Text>, fetched: Option<Text>) -> Cache<Text> {
    Cache {
        latest_tag: if fetched is Some {
            fetched
        } else {
            cache.latest_tag
        },
        ..cache
    }
}

/// The cache after a look for a release: a failed look keeps what was known.
pub fn end_check(cache: Cache, fetched: Option<String>) -> (result: Cache)
    ensures
        result.deep_view() == looked(cache.deep_view(), fetched.deep_view()),
{
    let mut result = cache;
    if fetched.is_some() {
        result.latest_tag = fetched;
    }
    result
}

/// The notice that a cache gives rise to.
pub fn cached_notice(current: &str, cache: &Cache) -> (result: Option<String>)
    ensures
        result.deep_view() == match cache.deep_view().latest_tag {
            Some(tag) => noticed(current@, tag),
            None => None,
        },
{
    match &cache.latest_tag {
        Some(tag) => notice(current, tag.as_str()),
        None => None,
    }
}

/// Whether bytes end in a line that says `200`, which begins behind the given place.
pub open spec fn status_behind(bytes: Seq<u8>, separator: int) -> bool {
    &&& 0 <= separator
    &&& bytes.len() == separator + 4
    &&& bytes[separator] == 10
    &&& bytes[separator + 1] == 50
    &&& bytes[separator + 2] == 48
    &&& bytes[separator + 3] == 48
}

/// The length of the body in front of the last line of an answer, where that line is the status
/// `200` and the answer is not too long.
pub fn response_body(bytes: &Vec<u8>) -> (result: Option<usize>)
    ensures
        match result {
            Some(length) => bytes@.len() <= MAX_RESPONSE && status_behind(bytes@, length as int),
            None => bytes@.len() > MAX_RESPONSE || !status_behind(bytes@, bytes@.len() - 4),
        },
{
    let length = bytes.len();
    if length as u64 > MAX_RESPONSE || length < 4 {
        return None;
    }
    let separator: usize = length - 4;
    if bytes[separator] == 10 && bytes[separator + 1] == 50 && bytes[separator + 2] == 48
        && bytes[separator + 3] == 48 {
        Some(separator)
    } else {
        None
    }
}

/// The body in front of the status holds all of an answer up to its last line break.
pub proof fn law_the_status_is_the_last_line(bytes: Seq<u8>, separator: int)
    requires
        status_behind(bytes, separator),
    ensures
        forall|i: int| separator < i < bytes.len() ==> bytes[i] != 10,
{
    assert forall|i: int| separator < i < bytes.len() implies bytes[i] != 10 by {
        assert(i == separator + 1 || i == separator + 2 || i == separator + 3);
    }
}

/// Whether a release is announced to everybody and stands for a version that is no pre-release.
pub open spec fn is_accepted(release: Release<Text>) -> bool {
    &&& !release.draft
    &&& !release.prerelease
    &&& stable_parts(release.tag_name, parts_of(bare_tag(release.tag_name))) is Some
}

/// The tag of a release that is announced to everybody.
pub fn accept_release(release: Release) -> (result: Option<String>)
    ensures
        result.deep_view() == if is_accepted(release.deep_view()) {
            Some(release.tag_name@)
        } else {
            None
        },
{
    if release.draft || release.prerelease {
        return None;
    }
    match stable_version(release.tag_name.as_str()) {
        Some(_) => Some(release.tag_name),
        None => None,
    }
}

/// After an attempt no other is due for a day, whether it succeeded or not.
pub proof fn law_attempts_are_a_day_apart(
    cache: Option<Cache<Text>>,
    now: u64,
    later: u64,
    latest_tag: Option<Text>,
)
    requires
        first_step(cache, now) is Fetch,
    ensures
        ({
            let kept = first_step(cache, now)->Fetch_cache;
            let ended = Cache { latest_tag, ..kept };
            &&& kept.checked_at == now
            &&& now <= later < now + CHECK_INTERVAL ==> first_step(Some(ended), later)
                == (Step::Remembered { cache: ended })
            &&& later >= now + CHECK_INTERVAL || later < now ==> first_step(
                Some(ended),
                later,
            ) is Fetch
        }),
{
}

/// Of a version that runs already there is no notice, nor of an earlier one.
pub proof fn law_no_notice_of_what_is_not_newer(current: Text, latest_tag: Text)
    requires
        parts_of(current) is Some,
        parts_of(bare_tag(latest_tag)) is Some,
        !numbers_exceed(parts_of(bare_tag(latest_tag))->0, parts_of(current)->0),
        parts_of(current)->0.pre.len() == 0,
    ensures
        noticed(current, latest_tag) is None,
{
}

} // verus!
