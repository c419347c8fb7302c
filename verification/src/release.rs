//! The latest release of a repository, as GitHub describes it.
use vstd::prelude::*;

use crate::error::UpdateError;
use crate::text;
use crate::text::strip_leading;

verus! {

/// A file of a release.
#[derive(Debug, Clone)]
pub struct GhAsset {
    pub name: String,
    pub browser_download_url: String,
}

/// A release.
#[derive(Debug)]
pub struct GhRelease {
    pub tag_name: String,
    pub assets: Vec<GhAsset>,
}

/// What came of the request for the latest release.
#[derive(Debug)]
pub enum Reply {
    /// No reply.
    Nothing { cause: String },
    /// A reply with this status code, the status in words, and the body: as
    /// text, and read as the description of a release.
    Answer { code: u16, status: String, body: String, release: Result<GhRelease, String> },
}

/// Where GitHub describes the latest release of a repository.
pub open spec fn latest_release_url(repo: Seq<char>) -> Seq<char> {
    "https://api.github.com/repos/"@ + repo + "/releases/latest"@
}

/// The status codes that stand for success.
pub open spec fn success_code(code: u16) -> bool {
    200 <= code <= 299
}

/// Where GitHub describes the latest release of a repository.
pub fn release_url(repo: &str) -> (r: String)
    ensures
        r@ == latest_release_url(repo@),
{
    let mut r: String = "https://api.github.com/repos/".to_string();
    r.append(repo);
    r.append("/releases/latest");
    r
}

/// Whether a status code stands for success.
pub fn is_success(code: u16) -> (r: bool)
    ensures
        r == success_code(code),
{
    200 <= code && code <= 299
}

/// What a reply to the request for the latest release comes to: the tag without
/// any leading `v` and the assets, or what the error tells.
pub open spec fn fetched(repo: Seq<char>, reply: Reply) -> Result<
    (Seq<char>, Seq<GhAsset>),
    Seq<Seq<char>>,
> {
    match reply {
        Reply::Nothing { cause } => Err(seq!["GET "@ + latest_release_url(repo), cause@]),
        Reply::Answer { code, status, body, release } => if success_code(code) {
            match release {
                Ok(rel) => Ok((text::without_leading(rel.tag_name@, 'v'), rel.assets@)),
                Err(cause) => Err(seq!["parsing GitHub release JSON"@, cause@]),
            }
        } else if code == 403 || code == 429 {
            Err(
                seq![
                    "GitHub rate limit hit for "@ + repo
                        + ". Pass --token / set GITHUB_TOKEN to raise limits.\n"@ + body@,
                ],
            )
        } else {
            Err(seq!["GitHub API error "@ + status@ + " for "@ + repo + ": "@ + body@])
        },
    }
}

/// What the request for the latest release came to.
pub open spec fn fetch_view(r: Result<(String, Vec<GhAsset>), UpdateError>) -> Result<
    (Seq<char>, Seq<GhAsset>),
    Seq<Seq<char>>,
> {
    match r {
        Ok((tag, assets)) => Ok((tag@, assets@)),
        Err(e) => Err(e.told()),
    }
}

/// The version that the latest release is tagged with, without any leading `v`,
/// and its assets; or why there is none.
pub fn fetch_latest_version(repo: &str, reply: Reply) -> (r: Result<
    (String, Vec<GhAsset>),
    UpdateError,
>)
    ensures
        match reply {
            Reply::Nothing { cause } => r matches Err(UpdateError::Request { url, cause: c }) && url@
                == latest_release_url(repo@) && c@ == cause@,
            Reply::Answer { code, status, body, release } => if success_code(code) {
                match release {
                    Ok(rel) => r matches Ok((tag, assets)) && tag@ == text::without_leading(
                        rel.tag_name@,
                        'v',
                    ) && assets@ == rel.assets@,
                    Err(cause) => r matches Err(UpdateError::ReleaseJson { cause: c }) && c@
                        == cause@,
                }
            } else if code == 403 || code == 429 {
                r matches Err(UpdateError::RateLimited { repo: p, body: b }) && p@ == repo@ && b@
                    == body@
            } else {
                r matches Err(UpdateError::Api { status: s, repo: p, body: b }) && s@ == status@
                    && p@ == repo@ && b@ == body@
            },
        },
        fetch_view(r) == fetched(repo@, reply),
{
    match reply {
        Reply::Nothing { cause } => Err(UpdateError::Request { url: release_url(repo), cause }),
        Reply::Answer { code, status, body, release } => {
            if is_success(code) {
                match release {
                    Ok(rel) => Ok((strip_leading(rel.tag_name.as_str(), 'v'), rel.assets)),
                    Err(cause) => Err(UpdateError::ReleaseJson { cause }),
                }
            } else if code == 403 || code == 429 {
                Err(UpdateError::RateLimited { repo: repo.to_string(), body })
            } else {
                Err(UpdateError::Api { status, repo: repo.to_string(), body })
            }
        },
    }
}

/// A release that is tagged with a version, with or without `v` before it, is
/// taken for that version.
pub proof fn leading_v_is_dropped(version: Seq<char>)
    requires
        version.len() > 0 ==> version[0] != 'v',
    ensures
        text::without_leading(version, 'v') == version,
        text::without_leading("v"@ + version, 'v') == version,
{
    reveal_strlit("v");
    text::leading_characters_are_dropped("v"@, version, 'v');
    text::leading_characters_are_dropped(Seq::empty(), version, 'v');
    assert(Seq::<char>::empty() + version =~= version);
}

/// A reply is a success exactly where its status code is one of the two hundreds.
pub proof fn success_is_in_the_two_hundreds(code: u16)
    ensures
        success_code(code) <==> code / 100 == 2,
{
}

/// The latest release of a repository is described under the API of GitHub.
pub proof fn releases_are_described_by_the_api(repo: Seq<char>)
    ensures
        latest_release_url(repo) == "https://api.github.com/repos/"@ + repo + "/releases/latest"@,
{
}

/// What a reply comes to depends on its status code: a success gives the version
/// and all assets of the release that it describes, in their order; any other code
/// gives an error, which tells the reply, and of which there are two kinds.
pub proof fn replies_are_taken_by_their_code(
    repo: Seq<char>,
    lead: Seq<char>,
    version: Seq<char>,
    code: u16,
    status: String,
    body: String,
    release: GhRelease,
    fault: String,
)
    requires
        forall|i: int| 0 <= i < lead.len() ==> #[trigger] lead[i] == 'v',
        version.len() > 0 ==> version[0] != 'v',
        release.tag_name@ == lead + version,
    ensures
        ({
            let good = fetched(repo, Reply::Answer { code, status, body, release: Ok(release) });
            let bad = fetched(repo, Reply::Answer { code, status, body, release: Err(fault) });
            let none = fetched(repo, Reply::Nothing { cause: fault });
            &&& code / 100 == 2 ==> good == Ok::<
                (Seq<char>, Seq<GhAsset>),
                Seq<Seq<char>>,
            >((version, release.assets@))
            &&& code / 100 == 2 ==> bad is Err && bad->Err_0.last() == fault@
            &&& code / 100 != 2 ==> good is Err && bad == good && text::contains(
                good->Err_0.last(),
                body@,
            ) && text::contains(good->Err_0.last(), repo)
            &&& (code == 403 || code == 429) <==> (code / 100 != 2 && text::occurs_at(
                good->Err_0.last(),
                "GitHub rate limit hit for "@,
                0,
            ))
            &&& code / 100 != 2 && code != 403 && code != 429 ==> text::contains(
                good->Err_0.last(),
                status@,
            )
            &&& none is Err && none->Err_0.last() == fault@ && none->Err_0[0] == "GET "@
                + "https://api.github.com/repos/"@ + repo + "/releases/latest"@
        }),
{
    text::leading_characters_are_dropped(lead, version, 'v');
    reveal_strlit("GitHub rate limit hit for ");
    reveal_strlit("GitHub API error ");
    let limit = "GitHub rate limit hit for "@ + repo
        + ". Pass --token / set GITHUB_TOKEN to raise limits.\n"@ + body@;
    let api = "GitHub API error "@ + status@ + " for "@ + repo + ": "@ + body@;
    let e = Seq::<char>::empty();
    text::parts_stand_between(e, "GitHub rate limit hit for "@, repo, limit.skip(
        26 + repo.len() as int,
    ));
    assert(limit =~= "GitHub rate limit hit for "@ + repo + limit.skip(26 + repo.len() as int));
    let head = limit.take(limit.len() - body@.len());
    assert(limit =~= head + body@ + e);
    text::parts_stand_between(e, head, body@, e);
    assert(limit.subrange(0, 26) =~= "GitHub rate limit hit for "@);
    let before = "GitHub API error "@ + status@ + " for "@;
    let after = ": "@ + body@;
    assert(api =~= before + repo + after);
    text::parts_stand_between(e, before, repo, after);
    let tail = " for "@ + repo + ": "@ + body@;
    assert(api =~= "GitHub API error "@ + status@ + tail);
    text::parts_stand_between(e, "GitHub API error "@, status@, tail);
    let start = "GitHub API error "@ + status@ + " for "@ + repo + ": "@;
    assert(api =~= start + body@ + e);
    text::parts_stand_between(e, start, body@, e);
    if text::occurs_at(api, "GitHub rate limit hit for "@, 0) {
        assert(api.subrange(0, 26)[7] == api[7]);
        assert(api[7] == 'A');
        assert("GitHub rate limit hit for "@[7] == 'r');
    }
    assert("GET "@ + latest_release_url(repo) =~= "GET "@ + "https://api.github.com/repos/"@ + repo
        + "/releases/latest"@);
}

/// The view of a fetched release shows its tag and its assets, and that of an error
/// shows what it tells.
pub proof fn fetches_are_shown_as_they_are(tag: String, assets: Vec<GhAsset>, error: UpdateError)
    ensures
        fetch_view(Ok((tag, assets))) == Ok::<(Seq<char>, Seq<GhAsset>), Seq<Seq<char>>>(
            (tag@, assets@),
        ),
        fetch_view(Err(error)) == Err::<(Seq<char>, Seq<GhAsset>), Seq<Seq<char>>>(error.told()),
{
}

} // verus!
