//! Update checks: which release is the latest stable one, how long the answer is
//! kept, and what is told.

use vstd::prelude::*;
use crate::error::{Error, ErrorOf, Failure};
use crate::number::{
    decimal, decimal_text, is_digit, law_decimal_reads_back, lemma_decimal, parse_number, read_number,
};
use crate::store::{entry, entry_texts, lookup, stored, Entry, Metadata};
use crate::text::{
    chars_of, concat2, concat3, first_index, is_text, law_trailing_run_is_cut_off,
    lemma_first_index, lemma_first_index_is, padded, split_once, text_of, str_of, texts, trim_end_char, without_trailing,
};
use crate::version::{
    law_tags_are_prefix_and_version, law_version_has_one_text, law_version_reads_back,
    law_versions_are_ordered, stable_version, tag_version, StableVersion,
};

verus! {

/// The repository whose releases are looked at by default.
pub const DEFAULT_REPOSITORY: &'static str = "elci-group/buddy";

/// What stands before the version in a release tag by default.
pub const DEFAULT_TAG_PREFIX: &'static str = "v";

/// The address of the GitHub API by default.
pub const DEFAULT_API_ROOT: &'static str = "https://api.github.com";

/// How long the answer of an update check is kept, in seconds: six hours.
pub const CACHE_SECONDS: u64 = 21600;

// ---------------------------------------------------------------------------
// The repository
// ---------------------------------------------------------------------------

/// A character that the owner and the name of a repository may hold.
pub open spec fn is_repository_char(c: char) -> bool {
    ||| 'a' <= c <= 'z'
    ||| 'A' <= c <= 'Z'
    ||| '0' <= c <= '9'
    ||| c == '.'
    ||| c == '-'
    ||| c == '_'
}

/// An owner or a name of a repository.
pub open spec fn is_repository_part(s: Seq<char>) -> bool {
    s.len() > 0 && forall|i: int| 0 <= i < s.len() ==> is_repository_char(#[trigger] s[i])
}

/// Two dots stand side by side in the text.
pub open spec fn has_double_dot(s: Seq<char>) -> bool {
    exists|i: int| 0 <= i < s.len() - 1 && #[trigger] s[i] == '.' && s[i + 1] == '.'
}

/// What is wrong with a repository. The first slash parts the owner from the
/// name.
pub open spec fn repository_flaw(s: Seq<char>) -> Option<Failure> {
    let at = first_index(s, '/');
    if !s.contains('/') {
        Some(Failure::RepositoryFormat)
    } else if is_repository_part(s.take(at)) && is_repository_part(s.skip(at + 1))
        && !has_double_dot(s.skip(at + 1)) {
        None
    } else {
        Some(Failure::RepositoryInvalid { repository: s })
    }
}

fn is_part(part: &str) -> (res: bool)
    ensures
        res == is_repository_part(part@),
{
    let chars = chars_of(part);
    if chars.len() == 0 {
        return false;
    }
    let mut i: usize = 0;
    while i < chars.len()
        invariant
            i <= chars.len(),
            chars@ == part@,
            forall|k: int| 0 <= k < i ==> is_repository_char(#[trigger] part@[k]),
        decreases chars.len() - i,
    {
        let c = chars[i];
        if !(('a' <= c && c <= 'z') || ('A' <= c && c <= 'Z') || ('0' <= c && c <= '9') || c == '.'
            || c == '-' || c == '_') {
            assert(!is_repository_char(part@[i as int]));
            return false;
        }
        i = i + 1;
    }
    true
}

fn holds_double_dot(part: &str) -> (res: bool)
    ensures
        res == has_double_dot(part@),
{
    let chars = chars_of(part);
    let mut i: usize = 1;
    while i < chars.len()
        invariant
            1 <= i,
            chars@ == part@,
            forall|k: int|
                0 <= k < i - 1 && k < part@.len() - 1 ==> !(#[trigger] part@[k] == '.' && part@[k + 1]
                    == '.'),
        decreases chars.len() - i,
    {
        if chars[i - 1] == '.' && chars[i] == '.' {
            assert(part@[i - 1] == '.' && part@[i - 1 + 1] == '.');
            return true;
        }
        i = i + 1;
    }
    false
}

/// Checks a repository.
pub fn validate_repository(repository: &str) -> (res: Result<(), Error>)
    ensures
        match res {
            Ok(_) => repository_flaw(repository@) is None,
            Err(error) => repository_flaw(repository@) == Some(error@),
        },
{
    match split_once(repository, '/') {
        None => Err(ErrorOf::RepositoryFormat),
        Some((owner, name)) => {
            proof {
                let at = owner@.len() as int;
                assert(repository@[at] == '/');
                assert forall|k: int| 0 <= k < at implies #[trigger] repository@[k] != '/' by {
                    assert(repository@[k] == owner@[k]);
                }
                lemma_first_index_is(repository@, '/', at);
                assert(repository@.take(at) =~= owner@);
                assert(repository@.skip(at + 1) =~= name@);
            }
            if !is_part(owner) || !is_part(name) || holds_double_dot(name) {
                Err(ErrorOf::RepositoryInvalid { repository: repository.to_owned() })
            } else {
                Ok(())
            }
        },
    }
}

/// The owner and the name make up the repository, and both are allowed.
pub open spec fn is_repository_of(s: Seq<char>, owner: Seq<char>, name: Seq<char>) -> bool {
    &&& s == owner + seq!['/'] + name
    &&& is_repository_part(owner)
    &&& is_repository_part(name)
    &&& !has_double_dot(name)
}

/// A repository passes exactly if it is an allowed owner, a slash, and an
/// allowed name without two dots in a row. It holds no other slash then.
pub proof fn law_accepted_repositories(s: Seq<char>)
    ensures
        repository_flaw(s) is None <==> exists|owner: Seq<char>, name: Seq<char>|
            is_repository_of(s, owner, name),
        forall|owner: Seq<char>, name: Seq<char>|
            #[trigger] is_repository_of(s, owner, name) ==> !owner.contains('/') && !name.contains('/'),
{
    lemma_first_index(s, '/');
    if repository_flaw(s) is None {
        let at = first_index(s, '/');
        assert(s =~= s.take(at) + seq!['/'] + s.skip(at + 1));
        assert(is_repository_of(s, s.take(at), s.skip(at + 1)));
    }
    assert forall|owner: Seq<char>, name: Seq<char>| #[trigger]
        is_repository_of(s, owner, name) implies !owner.contains('/') && !name.contains('/')
        && repository_flaw(s) is None by {
        let at = owner.len() as int;
        assert(s[at] == '/');
        assert forall|k: int| 0 <= k < at implies #[trigger] s[k] != '/' by {
            assert(is_repository_char(owner[k]));
        }
        lemma_first_index_is(s, '/', at);
        assert(s.contains('/'));
        assert(s.take(at) =~= owner);
        assert(s.skip(at + 1) =~= name);
        if owner.contains('/') {
            let k = choose|k: int| 0 <= k < owner.len() && owner[k] == '/';
            assert(is_repository_char(owner[k]));
        }
        if name.contains('/') {
            let k = choose|k: int| 0 <= k < name.len() && name[k] == '/';
            assert(is_repository_char(name[k]));
        }
    }
}

/// The address that lists the latest releases of a repository.
pub open spec fn releases_address(api_root: Option<Seq<char>>, repository: Seq<char>) -> Seq<char> {
    without_trailing(
        match api_root {
            Some(root) => root,
            None => DEFAULT_API_ROOT@,
        },
        '/',
    ) + "/repos/"@ + repository + "/releases?per_page=30"@
}

/// The address that lists the latest releases of a repository.
pub fn releases_url(api_root: Option<String>, repository: &str) -> (res: String)
    ensures
        res@ == releases_address(text_of(api_root), repository@),
{
    let root = match api_root {
        Some(root) => root,
        None => DEFAULT_API_ROOT.to_owned(),
    };
    let mut res = concat3(trim_end_char(root.as_str(), '/'), "/repos/", repository);
    res.append("/releases?per_page=30");
    res
}

// ---------------------------------------------------------------------------
// The latest release
// ---------------------------------------------------------------------------

/// A release, as GitHub lists it.
#[derive(Clone, Debug, PartialEq, Eq)]
pub struct GitHubRelease {
    pub tag_name: String,
    pub html_url: String,
    pub draft: bool,
    pub prerelease: bool,
}

/// The version of a release, if it is a stable one of the wanted tags.
pub open spec fn release_version(release: GitHubRelease, prefix: Seq<char>) -> Option<
    StableVersion,
> {
    if release.draft || release.prerelease {
        None
    } else {
        tag_version(release.tag_name@, prefix)
    }
}

/// The release at index `k` is the latest stable one: none is newer, and of
/// those with the same version it is the last.
pub open spec fn is_latest(releases: Seq<GitHubRelease>, prefix: Seq<char>, k: int) -> bool {
    &&& 0 <= k < releases.len()
    &&& release_version(releases[k], prefix) is Some
    &&& forall|j: int|
        0 <= j < releases.len() ==> (release_version(#[trigger] releases[j], prefix) matches Some(
            other,
        ) ==> {
            let best = release_version(releases[k], prefix)->0;
            !other.is_newer(best) && (j > k ==> best.is_newer(other))
        })
}

/// None of the releases is a stable one of the wanted tags.
pub open spec fn has_no_stable(releases: Seq<GitHubRelease>, prefix: Seq<char>) -> bool {
    forall|j: int|
        0 <= j < releases.len() ==> release_version(#[trigger] releases[j], prefix) is None
}

fn latest_index(releases: &[GitHubRelease], prefix: &str) -> (res: Option<(StableVersion, usize)>)
    ensures
        match res {
            Some((version, k)) => is_latest(releases@, prefix@, k as int) && release_version(
                releases@[k as int],
                prefix@,
            ) == Some(version),
            None => has_no_stable(releases@, prefix@),
        },
{
    let mut best: Option<(StableVersion, usize)> = None;
    let mut i: usize = 0;
    assert(releases@.take(0).len() == 0);
    while i < releases.len()
        invariant
            i <= releases@.len(),
            match best {
                Some((version, k)) => is_latest(releases@.take(i as int), prefix@, k as int)
                    && release_version(releases@[k as int], prefix@) == Some(version),
                None => has_no_stable(releases@.take(i as int), prefix@),
            },
        decreases releases@.len() - i,
    {
        let release = &releases[i];
        let ghost seen = releases@.take(i as int);
        let ghost more = releases@.take(i + 1);
        assert(forall|j: int| 0 <= j < i ==> #[trigger] more[j] == seen[j]);
        assert(more[i as int] == releases@[i as int]);
        let version = if release.draft || release.prerelease {
            None
        } else {
            StableVersion::from_tag(release.tag_name.as_str(), prefix)
        };
        assert(version == release_version(releases@[i as int], prefix@));
        let ghost previous = best;
        match version {
            None => {},
            Some(candidate) => match best {
                None => {
                    best = Some((candidate, i));
                },
                Some((leader, k)) => {
                    if !(leader > candidate) {
                        best = Some((candidate, i));
                    }
                },
            },
        }
        proof {
            match previous {
                Some((leader, k)) => {
                    assert(release_version(seen[k as int], prefix@) == Some(leader));
                    assert forall|j: int| 0 <= j < i implies (release_version(
                        #[trigger] more[j],
                        prefix@,
                    ) matches Some(other) ==> !other.is_newer(leader)) by {
                        assert(more[j] == seen[j]);
                    }
                },
                None => {
                    assert forall|j: int| 0 <= j < i implies release_version(
                        #[trigger] more[j],
                        prefix@,
                    ) is None by {
                        assert(more[j] == seen[j]);
                    }
                },
            }
            match best {
                Some((leader, k)) => {
                    if previous == best {
                        assert(is_latest(more, prefix@, k as int)) by {
                            assert(more[k as int] == seen[k as int]);
                            assert forall|j: int| 0 <= j < more.len() implies (release_version(
                                #[trigger] more[j],
                                prefix@,
                            ) matches Some(other) ==> !other.is_newer(leader) && (j > k
                                ==> leader.is_newer(other))) by {
                                if j < i {
                                    assert(more[j] == seen[j]);
                                }
                            }
                        }
                    }
                    assert(is_latest(more, prefix@, k as int));
                },
                None => {
                    assert(has_no_stable(more, prefix@));
                },
            }
        }
        i = i + 1;
    }
    assert(releases@.take(i as int) =~= releases@);
    best
}

/// The latest stable release, with its version.
pub fn latest_stable_release<'a>(releases: &'a [GitHubRelease], prefix: &str) -> (res: Option<
    (StableVersion, &'a GitHubRelease),
>)
    ensures
        match res {
            Some((version, release)) => exists|k: int|
                #[trigger] is_latest(releases@, prefix@, k) && *release == releases@[k]
                    && release_version(releases@[k], prefix@) == Some(version),
            None => has_no_stable(releases@, prefix@),
        },
{
    match latest_index(releases, prefix) {
        Some((version, k)) => Some((version, &releases[k])),
        None => None,
    }
}

/// There is only one latest release.
pub proof fn law_latest_is_unique(
    releases: Seq<GitHubRelease>,
    prefix: Seq<char>,
    j: int,
    k: int,
)
    requires
        is_latest(releases, prefix, j),
        is_latest(releases, prefix, k),
    ensures
        j == k,
{
    assert(release_version(releases[j], prefix) is Some);
    assert(release_version(releases[k], prefix) is Some);
}

/// Which version is the latest does not depend on the order in which the
/// releases are listed, nor on drafts, prereleases and releases of other tags
/// among them.
pub proof fn law_latest_ignores_order_and_others(
    first: Seq<GitHubRelease>,
    second: Seq<GitHubRelease>,
    prefix: Seq<char>,
    j: int,
    k: int,
)
    requires
        is_latest(first, prefix, j),
        is_latest(second, prefix, k),
        forall|i: int|
            0 <= i < first.len() && release_version(#[trigger] first[i], prefix) is Some
                ==> second.contains(first[i]),
        forall|i: int|
            0 <= i < second.len() && release_version(#[trigger] second[i], prefix) is Some
                ==> first.contains(second[i]),
    ensures
        release_version(first[j], prefix) == release_version(second[k], prefix),
{
    let a = choose|a: int| 0 <= a < second.len() && second[a] == first[j];
    let b = choose|b: int| 0 <= b < first.len() && first[b] == second[k];
    assert(second.contains(first[j]));
    assert(first.contains(second[k]));
    assert(release_version(second[a], prefix) is Some);
    assert(release_version(first[b], prefix) is Some);
}

// ---------------------------------------------------------------------------
// What is told
// ---------------------------------------------------------------------------

/// A remark that an answer was kept from an earlier check.
pub open spec fn cache_note(cached: bool) -> Seq<char> {
    if cached {
        " (cached)"@
    } else {
        ""@
    }
}

/// What is told when no stable release was found.
pub open spec fn none_found_line(current: StableVersion, cached: bool) -> Seq<char> {
    "No stable Buddy release was found"@ + cache_note(cached) + ". Current: "@ + current.text()
        + "."@
}

/// What is told when there is a newer release.
pub open spec fn available_line(
    latest: StableVersion,
    current: StableVersion,
    cached: bool,
) -> Seq<char> {
    "Buddy "@ + latest.text() + " is available; current: "@ + current.text() + cache_note(cached)
        + "."@
}

/// What is told when there is no newer release.
pub open spec fn up_to_date_line(current: StableVersion, cached: bool) -> Seq<char> {
    "Buddy is up to date at "@ + current.text() + cache_note(cached) + "."@
}

/// The text, unless it is missing or empty.
pub open spec fn non_empty(value: Option<Seq<char>>) -> Option<Seq<char>> {
    match value {
        Some(text) => if text.len() > 0 {
            Some(text)
        } else {
            None
        },
        None => None,
    }
}

/// What is told about the latest release.
pub open spec fn update_lines(
    current: StableVersion,
    latest: Option<Seq<char>>,
    url: Option<Seq<char>>,
    cached: bool,
) -> Result<Seq<Seq<char>>, Failure> {
    match non_empty(latest) {
        None => Ok(seq![none_found_line(current, cached)]),
        Some(text) => match stable_version(text) {
            None => Err(Failure::UpdateVersion { version: text }),
            Some(version) => Ok(
                if !version.is_newer(current) {
                    seq![up_to_date_line(current, cached)]
                } else {
                    match non_empty(url) {
                        None => seq![available_line(version, current, cached)],
                        Some(page) => seq![
                            available_line(version, current, cached),
                            "Release: "@ + page,
                        ],
                    }
                },
            ),
        },
    }
}

/// A newer release is told, whichever of its three numbers makes it newer, and so
/// is its page, if there is one.
pub proof fn law_newer_release_is_told(
    current: StableVersion,
    latest: StableVersion,
    url: Option<Seq<char>>,
    cached: bool,
)
    requires
        ({
            ||| latest.major > current.major
            ||| latest.major == current.major && latest.minor > current.minor
            ||| latest.major == current.major && latest.minor == current.minor && latest.patch
                > current.patch
        }),
    ensures
        update_lines(current, Some(latest.text()), url, cached) matches Ok(lines) && {
            &&& lines[0] == "Buddy "@ + latest.text() + " is available; current: "@
                + current.text() + (if cached {
                " (cached)"@
            } else {
                ""@
            }) + "."@
            &&& (url matches Some(page) && page.len() > 0) ==> lines.len() == 2 && lines[1]
                == "Release: "@ + url->0
            &&& !(url matches Some(page) && page.len() > 0) ==> lines.len() == 1
        },
{
    law_version_reads_back(latest);
}

/// The running version is said to be up to date exactly if the latest one is not
/// newer, in any of its numbers.
pub proof fn law_no_newer_release_is_up_to_date(
    current: StableVersion,
    latest: StableVersion,
    url: Option<Seq<char>>,
    cached: bool,
)
    ensures
        update_lines(current, Some(latest.text()), url, cached) == Ok::<Seq<Seq<char>>, Failure>(
            seq![
                "Buddy is up to date at "@ + current.text() + (if cached {
                    " (cached)"@
                } else {
                    ""@
                }) + "."@,
            ],
        ) <==> {
            ||| latest == current
            ||| latest.major < current.major
            ||| latest.major == current.major && latest.minor < current.minor
            ||| latest.major == current.major && latest.minor == current.minor && latest.patch
                < current.patch
        },
{
    law_version_reads_back(latest);
    law_versions_are_ordered(latest, current, current);
    reveal_strlit("Buddy is up to date at ");
    reveal_strlit("Buddy ");
    let told = "Buddy is up to date at "@ + current.text() + cache_note(cached) + "."@;
    let available = available_line(latest, current, cached);
    lemma_decimal(latest.major as nat);
    assert(told[6] == 'i');
    assert(is_digit(decimal(latest.major as nat)[0]));
    assert(available[6] == latest.text()[0]);
    assert(latest.text()[0] == decimal(latest.major as nat)[0]);
    if latest.is_newer(current) {
        let lines = update_lines(current, Some(latest.text()), url, cached)->Ok_0;
        assert(lines[0] == available);
        assert(seq![told][0] == told);
        assert(lines[0][6] != told[6]);
    }
}

/// Without a latest version, or with an empty one, it is told that no stable
/// release was found.
pub proof fn law_no_release_is_told(
    current: StableVersion,
    latest: Option<Seq<char>>,
    url: Option<Seq<char>>,
    cached: bool,
)
    requires
        latest matches Some(text) ==> text.len() == 0,
    ensures
        update_lines(current, latest, url, cached) == Ok::<Seq<Seq<char>>, Failure>(
            seq![
                "No stable Buddy release was found"@ + (if cached {
                    " (cached)"@
                } else {
                    ""@
                }) + ". Current: "@ + current.text() + "."@,
            ],
        ),
{
}

/// A latest version that is the text of no version is a failure.
pub proof fn law_no_version_is_a_failure(
    current: StableVersion,
    latest: Seq<char>,
    url: Option<Seq<char>>,
    cached: bool,
)
    requires
        latest.len() > 0,
        forall|version: StableVersion| latest != #[trigger] version.text(),
    ensures
        update_lines(current, Some(latest), url, cached) == Err::<Seq<Seq<char>>, Failure>(
            Failure::UpdateVersion { version: latest },
        ),
{
    law_version_has_one_text(latest);
    match stable_version(latest) {
        Some(version) => {
            assert(latest == version.text());
        },
        None => {},
    }
}

/// What is told about the latest release, line by line.
pub fn update_result_lines(
    current: StableVersion,
    latest: Option<&str>,
    url: Option<&str>,
    cached: bool,
) -> (res: Result<Vec<String>, Error>)
    ensures
        match (res, update_lines(current, str_of(latest), str_of(url), cached)) {
            (Ok(lines), Ok(expected)) => texts(lines@) == expected,
            (Err(error), Err(failure)) => error@ == failure,
            _ => false,
        },
{
    let note = if cached {
        " (cached)"
    } else {
        ""
    };
    let now_at = current.to_string();
    let mut lines: Vec<String> = Vec::new();
    let text = match latest {
        Some(text) => text,
        None => "",
    };
    proof {
        reveal_strlit("");
    }
    if text.is_empty() {
        let mut line = concat3("No stable Buddy release was found", note, ". Current: ");
        line.append(now_at.as_str());
        line.append(".");
        lines.push(line);
        assert(texts(lines@) =~= seq![none_found_line(current, cached)]);
        return Ok(lines);
    }
    let version = match StableVersion::parse(text) {
        Some(version) => version,
        None => {
            return Err(ErrorOf::UpdateVersion { version: text.to_owned() });
        },
    };
    if version > current {
        let mut line = concat3("Buddy ", version.to_string().as_str(), " is available; current: ");
        line.append(now_at.as_str());
        line.append(note);
        line.append(".");
        lines.push(line);
        assert(texts(lines@) =~= seq![available_line(version, current, cached)]);
        match url {
            None => {},
            Some(page) => {
                if !page.is_empty() {
                    lines.push(concat2("Release: ", page));
                    assert(texts(lines@) =~= seq![
                        available_line(version, current, cached),
                        "Release: "@ + page@,
                    ]);
                }
            },
        }
    } else {
        let mut line = concat3("Buddy is up to date at ", now_at.as_str(), note);
        line.append(".");
        lines.push(line);
        assert(texts(lines@) =~= seq![up_to_date_line(current, cached)]);
    }
    Ok(lines)
}

// ---------------------------------------------------------------------------
// The check
// ---------------------------------------------------------------------------

/// What an update check is about.
#[derive(Clone, Debug, PartialEq, Eq)]
pub struct UpdateRequest {
    /// The version that is running.
    pub current: StableVersion,
    pub repository: String,
    pub prefix: String,
}

/// The text, or the default one if it is missing.
pub open spec fn or_default(value: Option<Seq<char>>, default: Seq<char>) -> Seq<char> {
    match value {
        Some(text) => text,
        None => default,
    }
}

/// Makes the request for an update check. It needs a stable build and an allowed
/// repository.
pub fn update_request(build: &str, repository: Option<String>, prefix: Option<String>) -> (res:
    Result<UpdateRequest, Error>)
    ensures
        ({
            let from = or_default(text_of(repository), DEFAULT_REPOSITORY@);
            match res {
                Ok(request) => {
                    &&& stable_version(build@) == Some(request.current)
                    &&& repository_flaw(from) is None
                    &&& request.repository@ == from
                    &&& request.prefix@ == or_default(text_of(prefix), DEFAULT_TAG_PREFIX@)
                },
                Err(error) => if stable_version(build@) is None {
                    error@ == (Failure::UnstableBuild { version: build@ })
                } else {
                    repository_flaw(from) == Some(error@)
                },
            }
        }),
{
    let current = match StableVersion::parse(build) {
        Some(version) => version,
        None => {
            return Err(ErrorOf::UnstableBuild { version: build.to_owned() });
        },
    };
    let repository = match repository {
        Some(text) => text,
        None => DEFAULT_REPOSITORY.to_owned(),
    };
    match validate_repository(repository.as_str()) {
        Ok(_) => {},
        Err(error) => {
            return Err(error);
        },
    }
    let prefix = match prefix {
        Some(text) => text,
        None => DEFAULT_TAG_PREFIX.to_owned(),
    };
    Ok(UpdateRequest { current, repository, prefix })
}

/// The key of the time of the last update check.
pub const CHECKED_AT: &'static str = "update_checked_at_unix";

/// The key of the repository of the last update check.
pub const CHECKED_REPOSITORY: &'static str = "update_repository";

/// The key of the tag prefix of the last update check.
pub const CHECKED_PREFIX: &'static str = "update_tag_prefix";

/// The key of the version that the last update check found.
pub const LATEST_VERSION: &'static str = "update_latest_version";

/// The key of the release page that the last update check found.
pub const LATEST_URL: &'static str = "update_latest_url";

/// What the metadata holds of the last update check. `S` is the type of the
/// texts: `String` at run time, `Seq<char>` in specifications.
#[derive(Clone, Debug, PartialEq, Eq)]
pub struct CacheOf<S> {
    pub checked_at: Option<S>,
    pub repository: Option<S>,
    pub prefix: Option<S>,
    pub version: Option<S>,
    pub url: Option<S>,
}

/// What the metadata holds of the last update check.
pub type UpdateCache = CacheOf<String>;

impl View for CacheOf<String> {
    type V = CacheOf<Seq<char>>;

    open spec fn view(&self) -> CacheOf<Seq<char>> {
        CacheOf {
            checked_at: text_of(self.checked_at),
            repository: text_of(self.repository),
            prefix: text_of(self.prefix),
            version: text_of(self.version),
            url: text_of(self.url),
        }
    }
}

/// What some metadata holds of the last update check.
pub open spec fn cache_in(metadata: Metadata) -> CacheOf<Seq<char>> {
    CacheOf {
        checked_at: lookup(metadata, CHECKED_AT@),
        repository: lookup(metadata, CHECKED_REPOSITORY@),
        prefix: lookup(metadata, CHECKED_PREFIX@),
        version: lookup(metadata, LATEST_VERSION@),
        url: lookup(metadata, LATEST_URL@),
    }
}

/// The time of the last update check. Without one it counts as long ago.
pub open spec fn check_time(checked_at: Option<Seq<char>>) -> Result<nat, Failure> {
    match checked_at {
        None => Ok(0),
        Some(value) => match read_number(value, u64::MAX as nat) {
            Ok(time) => Ok(time),
            Err(cause) => Err(Failure::UpdateTimestamp { value, cause }),
        },
    }
}

/// The answer of the last update check still holds: it is less than six hours
/// old, and was about the same releases.
pub open spec fn is_fresh(
    request: UpdateRequest,
    now: nat,
    checked: nat,
    cache: CacheOf<Seq<char>>,
) -> bool {
    &&& now < checked + CACHE_SECONDS
    &&& cache.repository == Some(request.repository@)
    &&& cache.prefix == Some(request.prefix@)
}

/// What is told from the last update check, or nothing if the releases are to be
/// fetched.
pub open spec fn kept_lines(
    request: UpdateRequest,
    force: bool,
    now: nat,
    cache: CacheOf<Seq<char>>,
) -> Result<Option<Seq<Seq<char>>>, Failure> {
    if force {
        Ok(None)
    } else {
        match check_time(cache.checked_at) {
            Err(failure) => Err(failure),
            Ok(checked) => if !is_fresh(request, now, checked, cache) {
                Ok(None)
            } else {
                match update_lines(request.current, cache.version, cache.url, true) {
                    Ok(lines) => Ok(Some(lines)),
                    Err(failure) => Err(failure),
                }
            },
        }
    }
}

/// Answers an update check from the last one, or says that the releases are to
/// be fetched.
pub fn consult_cache(
    request: &UpdateRequest,
    force: bool,
    now: u64,
    cache: &UpdateCache,
) -> (res: Result<Option<Vec<String>>, Error>)
    ensures
        match (res, kept_lines(*request, force, now as nat, cache@)) {
            (Ok(Some(lines)), Ok(Some(expected))) => texts(lines@) == expected,
            (Ok(None), Ok(None)) => true,
            (Err(error), Err(failure)) => error@ == failure,
            _ => false,
        },
{
    if force {
        return Ok(None);
    }
    let checked: u64 = match &cache.checked_at {
        None => 0,
        Some(value) => match parse_number(value.as_str(), u64::MAX) {
            Ok(time) => time,
            Err(cause) => {
                return Err(ErrorOf::UpdateTimestamp { value: value.clone(), cause });
            },
        },
    };
    if now.saturating_sub(checked) < CACHE_SECONDS && is_text(
        &cache.repository,
        request.repository.as_str(),
    ) && is_text(&cache.prefix, request.prefix.as_str()) {
        let version = match &cache.version {
            Some(text) => Some(text.as_str()),
            None => None,
        };
        let url = match &cache.url {
            Some(text) => Some(text.as_str()),
            None => None,
        };
        match update_result_lines(request.current, version, url, true) {
            Ok(lines) => Ok(Some(lines)),
            Err(error) => Err(error),
        }
    } else {
        Ok(None)
    }
}

/// What an update check stores: when it happened, what it was about, and the
/// version and page of the latest release, which are empty if there is none.
pub open spec fn check_entries(
    request: UpdateRequest,
    now: u64,
    version: Seq<char>,
    url: Seq<char>,
) -> Seq<(Seq<char>, Seq<char>)> {
    seq![
        (CHECKED_AT@, decimal(now as nat)),
        (CHECKED_REPOSITORY@, request.repository@),
        (CHECKED_PREFIX@, request.prefix@),
        (LATEST_VERSION@, version),
        (LATEST_URL@, url),
    ]
}

/// What comes out of an update check.
pub struct UpdateOutcome {
    /// What is to be stored.
    pub entries: Vec<Entry>,
    /// What is to be told.
    pub lines: Vec<String>,
}

/// The version and page that an update check finds in the releases. Both are
/// empty if there is no stable release.
pub open spec fn is_finding(
    releases: Seq<GitHubRelease>,
    prefix: Seq<char>,
    version: Seq<char>,
    url: Seq<char>,
) -> bool {
    ||| has_no_stable(releases, prefix) && version.len() == 0 && url.len() == 0
    ||| exists|k: int|
        #[trigger] is_latest(releases, prefix, k) && version == release_version(
            releases[k],
            prefix,
        )->0.text() && url == releases[k].html_url@
}

/// Concludes an update check with the releases that were fetched.
pub fn conclude_check(request: &UpdateRequest, releases: &[GitHubRelease], now: u64) -> (res:
    UpdateOutcome)
    ensures
        exists|version: Seq<char>, url: Seq<char>|
            {
                &&& is_finding(releases@, request.prefix@, version, url)
                &&& entry_texts(res.entries@) == #[trigger] check_entries(
                    *request,
                    now,
                    version,
                    url,
                )
                &&& update_lines(request.current, Some(version), Some(url), false) == Ok::<
                    Seq<Seq<char>>,
                    Failure,
                >(texts(res.lines@))
            },
{
    let (version, url) = match latest_stable_release(releases, request.prefix.as_str()) {
        Some((version, release)) => {
            proof {
                law_version_reads_back(version);
            }
            (version.to_string(), release.html_url.clone())
        },
        None => (String::new(), String::new()),
    };
    assert(is_finding(releases@, request.prefix@, version@, url@));
    let mut entries: Vec<Entry> = Vec::new();
    entries.push(entry(CHECKED_AT, decimal_text(now as u128)));
    entries.push(entry(CHECKED_REPOSITORY, request.repository.clone()));
    entries.push(entry(CHECKED_PREFIX, request.prefix.clone()));
    entries.push(entry(LATEST_VERSION, version.clone()));
    entries.push(entry(LATEST_URL, url.clone()));
    assert(entry_texts(entries@) =~= check_entries(*request, now, version@, url@));
    let lines = match update_result_lines(
        request.current,
        Some(version.as_str()),
        Some(url.as_str()),
        false,
    ) {
        Ok(lines) => lines,
        // A version that was written can be read.
        Err(_) => Vec::new(),
    };
    UpdateOutcome { entries, lines }
}

proof fn lemma_check_is_stored(
    metadata: Metadata,
    request: UpdateRequest,
    now: u64,
    version: Seq<char>,
    url: Seq<char>,
)
    ensures
        cache_in(stored(metadata, check_entries(request, now, version, url))) == (CacheOf {
            checked_at: Some(decimal(now as nat)),
            repository: Some(request.repository@),
            prefix: Some(request.prefix@),
            version: Some(version),
            url: Some(url),
        }),
{
    reveal_strlit("update_checked_at_unix");
    reveal_strlit("update_repository");
    reveal_strlit("update_tag_prefix");
    reveal_strlit("update_latest_version");
    reveal_strlit("update_latest_url");
    assert(CHECKED_AT@.len() == 22);
    assert(CHECKED_REPOSITORY@.len() == 17);
    assert(CHECKED_PREFIX@.len() == 17);
    assert(LATEST_VERSION@.len() == 21);
    assert(LATEST_URL@.len() == 17);
    assert(CHECKED_PREFIX@[7] != LATEST_URL@[7]);
    assert(CHECKED_PREFIX@[7] != CHECKED_REPOSITORY@[7]);
    assert(CHECKED_REPOSITORY@[7] != LATEST_URL@[7]);
    let e5 = check_entries(request, now, version, url);
    let e4 = e5.drop_last();
    let e3 = e4.drop_last();
    let e2 = e3.drop_last();
    let e1 = e2.drop_last();
    assert(e1.drop_last() =~= Seq::<(Seq<char>, Seq<char>)>::empty());
    assert(stored(metadata, e1.drop_last()) == metadata);
    assert(stored(metadata, e1) == metadata.insert(CHECKED_AT@, decimal(now as nat)));
    assert(stored(metadata, e2) == stored(metadata, e1).insert(
        CHECKED_REPOSITORY@,
        request.repository@,
    ));
    assert(stored(metadata, e3) == stored(metadata, e2).insert(CHECKED_PREFIX@, request.prefix@));
    assert(stored(metadata, e4) == stored(metadata, e3).insert(LATEST_VERSION@, version));
    assert(stored(metadata, e5) == stored(metadata, e4).insert(LATEST_URL@, url));
}

/// The answer of an update check is kept for six hours: until then another check
/// of the same releases is answered with the same finding, marked as kept, and
/// nothing is fetched.
pub proof fn law_check_is_kept_for_six_hours(
    metadata: Metadata,
    request: UpdateRequest,
    releases: Seq<GitHubRelease>,
    version: Seq<char>,
    url: Seq<char>,
    checked: u64,
    again: UpdateRequest,
    now: nat,
)
    requires
        is_finding(releases, request.prefix@, version, url),
        again.repository@ == request.repository@,
        again.prefix@ == request.prefix@,
        now < checked + 6 * 60 * 60,
    ensures
        ({
            let after = stored(metadata, check_entries(request, checked, version, url));
            &&& update_lines(again.current, Some(version), Some(url), true) is Ok
            &&& kept_lines(again, false, now, cache_in(after)) == Ok::<
                Option<Seq<Seq<char>>>,
                Failure,
            >(Some(update_lines(again.current, Some(version), Some(url), true)->Ok_0))
        }),
{
    lemma_check_is_stored(metadata, request, checked, version, url);
    law_decimal_reads_back(checked as nat, u64::MAX as nat);
    if !has_no_stable(releases, request.prefix@) {
        let k = choose|k: int|
            #[trigger] is_latest(releases, request.prefix@, k) && version == release_version(
                releases[k],
                request.prefix@,
            )->0.text() && url == releases[k].html_url@;
        law_version_reads_back(release_version(releases[k], request.prefix@)->0);
    }
}

/// The releases are fetched anew once six hours have passed, for another
/// repository or tag prefix, and whenever that is forced.
pub proof fn law_check_is_repeated(
    metadata: Metadata,
    request: UpdateRequest,
    version: Seq<char>,
    url: Seq<char>,
    checked: u64,
    again: UpdateRequest,
    force: bool,
    now: nat,
)
    requires
        force || now >= checked + 6 * 60 * 60 || again.repository@ != request.repository@
            || again.prefix@ != request.prefix@,
    ensures
        kept_lines(
            again,
            force,
            now,
            cache_in(stored(metadata, check_entries(request, checked, version, url))),
        ) == Ok::<Option<Seq<Seq<char>>>, Failure>(None),
{
    lemma_check_is_stored(metadata, request, checked, version, url);
    law_decimal_reads_back(checked as nat, u64::MAX as nat);
}

/// The latest release is published, neither a draft nor a prerelease; its tag is
/// the prefix and its version; and no other published release of such a tag has a
/// newer version. The releases have none exactly if no published one has such a tag.
pub proof fn law_latest_is_the_newest_published(
    releases: Seq<GitHubRelease>,
    prefix: Seq<char>,
    k: int,
    other: int,
    version: StableVersion,
)
    requires
        0 <= other < releases.len(),
        !releases[other].draft,
        !releases[other].prerelease,
        releases[other].tag_name@ == prefix + version.text(),
    ensures
        is_latest(releases, prefix, k) ==> 0 <= k < releases.len() && !releases[k].draft
            && !releases[k].prerelease && (release_version(releases[k], prefix) matches Some(best)
            && releases[k].tag_name@ == prefix + best.text() && !version.is_newer(best) && (other
            > k ==> best.is_newer(version))),
        !has_no_stable(releases, prefix),
{
    law_tags_are_prefix_and_version(releases[other].tag_name@, prefix, version);
    assert(release_version(releases[other], prefix) == Some(version));
    if is_latest(releases, prefix, k) {
        let best = release_version(releases[k], prefix)->0;
        law_tags_are_prefix_and_version(releases[k].tag_name@, prefix, best);
    }
}

/// A release counts only if it is published and its tag is the prefix and a
/// version. If none does, there is no latest one.
pub proof fn law_only_published_versions_count(
    releases: Seq<GitHubRelease>,
    prefix: Seq<char>,
    k: int,
)
    ensures
        0 <= k < releases.len() ==> (release_version(releases[k], prefix) matches Some(version)
            ==> !releases[k].draft && !releases[k].prerelease && releases[k].tag_name@ == prefix
            + version.text()),
        has_no_stable(releases, prefix) ==> !is_latest(releases, prefix, k),
        (forall|j: int|
            0 <= j < releases.len() ==> (#[trigger] releases[j]).draft || releases[j].prerelease)
            ==> has_no_stable(releases, prefix),
{
    if 0 <= k < releases.len() {
        match release_version(releases[k], prefix) {
            Some(version) => {
                law_tags_are_prefix_and_version(releases[k].tag_name@, prefix, version);
            },
            None => {},
        }
    }
}

/// An update check finds the version and the page of the latest release. It finds
/// neither where there is none.
pub proof fn law_findings(
    releases: Seq<GitHubRelease>,
    prefix: Seq<char>,
    k: int,
    version: Seq<char>,
    url: Seq<char>,
)
    requires
        is_finding(releases, prefix, version, url),
    ensures
        is_latest(releases, prefix, k) ==> url == releases[k].html_url@ && (release_version(
            releases[k],
            prefix,
        ) matches Some(best) && version == best.text()),
        has_no_stable(releases, prefix) ==> version.len() == 0 && url.len() == 0,
{
    if is_latest(releases, prefix, k) {
        assert(!has_no_stable(releases, prefix));
        let j = choose|j: int|
            #[trigger] is_latest(releases, prefix, j) && version == release_version(
                releases[j],
                prefix,
            )->0.text() && url == releases[j].html_url@;
        law_latest_is_unique(releases, prefix, j, k);
    }
}

/// Which characters a repository may hold.
pub proof fn law_repository_characters(s: Seq<char>)
    ensures
        is_repository_part(s) <==> s.len() > 0 && forall|i: int|
            0 <= i < s.len() ==> {
                ||| 'a' <= #[trigger] s[i] <= 'z'
                ||| 'A' <= s[i] <= 'Z'
                ||| '0' <= s[i] <= '9'
                ||| s[i] == '.'
                ||| s[i] == '-'
                ||| s[i] == '_'
            },
        has_double_dot(s) <==> exists|before: Seq<char>, after: Seq<char>|
            s == #[trigger] padded(before, ".."@, after),
{
    reveal_strlit("..");
    if is_repository_part(s) {
        assert forall|i: int| 0 <= i < s.len() implies {
            ||| 'a' <= #[trigger] s[i] <= 'z'
            ||| 'A' <= s[i] <= 'Z'
            ||| '0' <= s[i] <= '9'
            ||| s[i] == '.'
            ||| s[i] == '-'
            ||| s[i] == '_'
        } by {
            assert(is_repository_char(s[i]));
        }
    }
    if has_double_dot(s) {
        let i = choose|i: int|
            0 <= i < s.len() - 1 && #[trigger] s[i] == '.' && s[i + 1] == '.';
        assert(s =~= padded(s.take(i), ".."@, s.skip(i + 2)));
    }
    assert forall|before: Seq<char>, after: Seq<char>|
        s == #[trigger] padded(before, ".."@, after) implies has_double_dot(s) by {
        let i = before.len() as int;
        assert(s[i] == '.' && s[i + 1] == '.');
    }
}

/// What is wrong with a repository that is refused: without a slash it is the form,
/// and otherwise the repository itself.
pub proof fn law_repository_failures(s: Seq<char>)
    ensures
        !s.contains('/') ==> repository_flaw(s) == Some(Failure::RepositoryFormat),
        s.contains('/') && repository_flaw(s) is Some ==> repository_flaw(s) == Some(
            Failure::RepositoryInvalid { repository: s },
        ),
{
}

/// The releases are asked for below the configured root, whatever slashes it ends
/// in, or below GitHub's.
pub proof fn law_releases_address(root: Seq<char>, slashes: Seq<char>, repository: Seq<char>)
    requires
        root.len() > 0 ==> root.last() != '/',
        forall|i: int| 0 <= i < slashes.len() ==> #[trigger] slashes[i] == '/',
    ensures
        releases_address(Some(root + slashes), repository) == root + "/repos/"@ + repository
            + "/releases?per_page=30"@,
        releases_address(None, repository) == "https://api.github.com"@ + "/repos/"@ + repository
            + "/releases?per_page=30"@,
{
    let s = root + slashes;
    law_trailing_run_is_cut_off(s, '/');
    let rest = without_trailing(s, '/');
    if rest.len() < root.len() {
        assert(s[root.len() - 1] == root.last());
    }
    if rest.len() > root.len() {
        assert(rest.last() == s[rest.len() - 1]);
        assert(s[rest.len() - 1] == slashes[rest.len() - 1 - root.len()]);
    }
    assert(rest =~= root);
    reveal_strlit("https://api.github.com");
    assert("https://api.github.com"@.last() == 'm');
}

/// Without a remembered check, or with one whose time cannot be read, nothing is
/// answered from it: the releases are fetched, or the failure is told.
pub proof fn law_checks_need_a_time(
    request: UpdateRequest,
    now: nat,
    cache: CacheOf<Seq<char>>,
)
    ensures
        cache.checked_at is None && now >= 6 * 60 * 60 ==> kept_lines(request, false, now, cache)
            == Ok::<Option<Seq<Seq<char>>>, Failure>(None),
        cache.checked_at matches Some(value) ==> (read_number(value, u64::MAX as nat) matches Err(
            cause,
        ) ==> kept_lines(request, false, now, cache) == Err::<Option<Seq<Seq<char>>>, Failure>(
            Failure::UpdateTimestamp { value, cause },
        )),
        kept_lines(request, true, now, cache) == Ok::<Option<Seq<Seq<char>>>, Failure>(None),
{
}

/// A check whose time can be read is answered from exactly if it is less than six
/// hours old and was about the same repository and the same tags. What is told then
/// is the version and the page that were kept.
pub proof fn law_kept_answers(
    request: UpdateRequest,
    now: nat,
    checked: nat,
    cache: CacheOf<Seq<char>>,
)
    requires
        checked <= u64::MAX,
        cache.checked_at == Some(decimal(checked)),
    ensures
        ({
            let told = kept_lines(request, false, now, cache);
            if now < checked + 6 * 60 * 60 && cache.repository == Some(request.repository@)
                && cache.prefix == Some(request.prefix@) {
                match update_lines(request.current, cache.version, cache.url, true) {
                    Ok(lines) => told == Ok::<Option<Seq<Seq<char>>>, Failure>(Some(lines)),
                    Err(failure) => told == Err::<Option<Seq<Seq<char>>>, Failure>(failure),
                }
            } else {
                told == Ok::<Option<Seq<Seq<char>>>, Failure>(None)
            }
        }),
{
    law_decimal_reads_back(checked, u64::MAX as nat);
}

/// A text that is there is taken, and the default one otherwise.
pub proof fn law_defaults(value: Seq<char>, default: Seq<char>)
    ensures
        or_default(Some(value), default) == value,
        or_default(None, default) == default,
{
}

} // verus!
