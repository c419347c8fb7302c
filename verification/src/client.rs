//! The headers that every request to GitHub carries.
use vstd::prelude::*;

use crate::error::UpdateError;

verus! {

/// A character that the value of a header can hold: a tab, or none of the ASCII
/// control characters.
pub open spec fn header_char(c: char) -> bool {
    c == '\t' || (c >= ' ' && c != '\u{7f}')
}

/// A text that can be the value of a header.
pub open spec fn header_text(s: Seq<char>) -> bool {
    forall|i: int| 0 <= i < s.len() ==> header_char(#[trigger] s[i])
}

/// `reqwest::header::HeaderValue::from_str`, for the texts that it accepts: those
/// without ASCII control characters other than the tab. The others it refuses
/// with one and the same message.
#[verifier::external_body]
fn check_header(value: &str) -> (r: Result<(), String>)
    ensures
        r is Ok <==> header_text(value@),
        r matches Err(m) ==> m@ == "failed to parse header value"@,
{
    reqwest::header::HeaderValue::from_str(value).map(|_| ()).map_err(
        |e| format!("{:#}", anyhow::Error::new(e)),
    )
}

/// A header: its name in lower case, and its value.
#[derive(Debug, PartialEq, Eq)]
pub struct Header {
    pub name: &'static str,
    pub value: String,
}

/// The texts of headers.
pub open spec fn header_texts(headers: Seq<Header>) -> Seq<(Seq<char>, Seq<char>)> {
    headers.map_values(|h: Header| (h.name@, h.value@))
}

/// How the updater calls itself, where that can be the value of a header.
pub open spec fn user_agent(version: Seq<char>, repo: Seq<char>) -> Seq<char> {
    let full = "clipdate/"@ + version + " (https://github.com/"@ + repo + ")"@;
    if header_text(full) {
        full
    } else {
        "clipdate"@
    }
}

/// The headers that every request carries, with or without a token.
pub open spec fn request_headers(
    version: Seq<char>,
    repo: Seq<char>,
    token: Option<Seq<char>>,
) -> Seq<(Seq<char>, Seq<char>)> {
    let common = seq![
        ("user-agent"@, user_agent(version, repo)),
        ("accept"@, "application/vnd.github+json"@),
        ("x-github-api-version"@, "2022-11-28"@),
    ];
    match token {
        Some(t) => common.push(("authorization"@, "Bearer "@ + t)),
        None => common,
    }
}

/// The view of an optional text.
pub open spec fn opt_view(s: Option<&str>) -> Option<Seq<char>> {
    match s {
        Some(t) => Some(t@),
        None => None,
    }
}

/// The headers that every request carries: how the updater calls itself, what
/// kind of reply it takes, the version of the GitHub API that it is written for,
/// and the token, if one is given. A token that a header cannot hold is an error.
pub fn client_headers(version: &str, repo: &str, token: Option<&str>) -> (r: Result<
    Vec<Header>,
    UpdateError,
>)
    ensures
        r is Ok <==> (token matches Some(t) ==> header_text("Bearer "@ + t@)),
        match r {
            Ok(headers) => header_texts(headers@) == request_headers(
                version@,
                repo@,
                opt_view(token),
            ),
            Err(UpdateError::InvalidToken { cause }) => cause@ == "failed to parse header value"@,
            Err(_) => false,
        },
        r matches Ok(headers) ==> forall|i: int|
            0 <= i < headers@.len() ==> header_text((#[trigger] headers@[i]).value@),
{
    let mut agent: String = "clipdate/".to_string();
    agent.append(version);
    agent.append(" (https://github.com/");
    agent.append(repo);
    agent.append(")");
    if check_header(agent.as_str()).is_err() {
        agent = "clipdate".to_string();
    }
    let mut headers: Vec<Header> = Vec::new();
    headers.push(Header { name: "user-agent", value: agent });
    headers.push(Header { name: "accept", value: "application/vnd.github+json".to_string() });
    headers.push(Header { name: "x-github-api-version", value: "2022-11-28".to_string() });
    proof {
        reveal_strlit("clipdate");
        reveal_strlit("application/vnd.github+json");
        reveal_strlit("2022-11-28");
    }
    if let Some(t) = token {
        let mut value: String = "Bearer ".to_string();
        value.append(t);
        match check_header(value.as_str()) {
            Ok(_) => {},
            Err(cause) => {
                return Err(UpdateError::InvalidToken { cause });
            },
        }
        headers.push(Header { name: "authorization", value });
    }
    assert(header_texts(headers@) =~= request_headers(version@, repo@, opt_view(token)));
    Ok(headers)
}

/// A request with a token carries all that one without it does, and the token.
pub proof fn a_token_is_one_more_header(version: Seq<char>, repo: Seq<char>, token: Seq<char>)
    ensures
        request_headers(version, repo, Some(token)) == request_headers(version, repo, None).push(
            ("authorization"@, "Bearer "@ + token),
        ),
        request_headers(version, repo, None).len() == 3,
        request_headers(version, repo, None)[0] == ("user-agent"@, user_agent(version, repo)),
        request_headers(version, repo, None)[1] == (
            "accept"@,
            "application/vnd.github+json"@,
        ),
        request_headers(version, repo, None)[2] == ("x-github-api-version"@, "2022-11-28"@),
{
}

/// The updater names its version and its repository in every request, unless they
/// hold what a header cannot.
pub proof fn the_updater_names_itself(version: Seq<char>, repo: Seq<char>, i: int)
    ensures
        header_text(version) && header_text(repo) ==> user_agent(version, repo) == "clipdate/"@
            + version + " (https://github.com/"@ + repo + ")"@,
        0 <= i < version.len() && !header_char(version[i]) ==> user_agent(version, repo)
            == "clipdate"@,
        0 <= i < repo.len() && !header_char(repo[i]) ==> user_agent(version, repo) == "clipdate"@,
{
    reveal_strlit("clipdate/");
    reveal_strlit(" (https://github.com/");
    reveal_strlit(")");
    let full = "clipdate/"@ + version + " (https://github.com/"@ + repo + ")"@;
    let at = 9 + version.len() as int + 21;
    assert("clipdate/"@.len() == 9 && " (https://github.com/"@.len() == 21);
    if header_text(version) && header_text(repo) {
        assert forall|k: int| 0 <= k < full.len() implies header_char(#[trigger] full[k]) by {
            if k < 9 {
                assert(full[k] == "clipdate/"@[k]);
            } else if k < 9 + version.len() {
                assert(full[k] == version[k - 9]);
            } else if k < at {
                assert(full[k] == " (https://github.com/"@[k - 9 - version.len()]);
            } else if k < at + repo.len() {
                assert(full[k] == repo[k - at]);
            } else {
                assert(full[k] == ')');
            }
        }
    }
    if 0 <= i < version.len() {
        assert(full[9 + i] == version[i]);
    }
    if 0 <= i < repo.len() {
        assert(full[at + i] == repo[i]);
    }
}

/// A header can hold every character but the ASCII control characters, of which it
/// can hold the tab.
pub proof fn headers_hold_no_control_characters(c: char)
    ensures
        header_char(c) <==> !((c as int) < 32 || c as int == 127) || c == '\t',
        header_text(seq![c]) <==> header_char(c),
{
    assert(seq![c][0] == c);
}

/// The view of headers shows their names and values.
pub proof fn headers_are_shown_as_they_are(headers: Seq<Header>, i: int, s: &str)
    requires
        0 <= i < headers.len(),
    ensures
        header_texts(headers).len() == headers.len(),
        header_texts(headers)[i] == (headers[i].name@, headers[i].value@),
        opt_view(Some(s)) == Some(s@),
        opt_view(None) is None,
{
}

} // verus!
