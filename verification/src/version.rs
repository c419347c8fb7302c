//! Semantic versions, and how the installed version of a tool is found.
use vstd::prelude::*;

use crate::error::UpdateError;
use crate::text;
use crate::text::{decimal_text, decode_lossy, trim};

verus! {

/// What `semver::Version::parse` reads from `text`: major, minor and patch
/// number, pre-release identifiers and build metadata; or the message of its
/// error.
pub uninterp spec fn semver_outcome(text: Seq<char>) -> Result<
    (u64, u64, u64, Seq<char>, Seq<char>),
    Seq<char>,
>;

/// The version that `text` writes down, if it does.
pub open spec fn semver_parse(text: Seq<char>) -> Option<
    (u64, u64, u64, Seq<char>, Seq<char>),
> {
    match semver_outcome(text) {
        Ok(v) => Some(v),
        Err(_) => None,
    }
}

/// Why `text` is no version.
pub open spec fn semver_refusal(text: Seq<char>) -> Seq<char> {
    semver_outcome(text)->Err_0
}

/// How a version is written.
pub open spec fn version_text(v: (u64, u64, u64, Seq<char>, Seq<char>)) -> Seq<char> {
    text::decimal(v.0 as nat) + "."@ + text::decimal(v.1 as nat) + "."@ + text::decimal(v.2 as nat)
        + (if v.3.len() == 0 {
        Seq::empty()
    } else {
        "-"@ + v.3
    }) + (if v.4.len() == 0 {
        Seq::empty()
    } else {
        "+"@ + v.4
    })
}

/// The characters that a semantic version is written with.
pub open spec fn version_char(c: char) -> bool {
    ('0' <= c <= '9') || ('a' <= c <= 'z') || ('A' <= c <= 'Z') || c == '-' || c == '.' || c == '+'
}

/// `semver::Version::parse`, with the message of its error as `anyhow` writes it.
/// The version that it reads, written down again, is the text that it was read
/// from, which holds only digits, ASCII letters, hyphens, dots and plus signs.
#[verifier::external_body]
fn parse_semver(text: &str) -> (r: Result<(u64, u64, u64, String, String), String>)
    ensures
        match r {
            Ok(v) => semver_outcome(text@) == Ok::<
                (u64, u64, u64, Seq<char>, Seq<char>),
                Seq<char>,
            >((v.0, v.1, v.2, v.3@, v.4@)),
            Err(m) => semver_outcome(text@) == Err::<
                (u64, u64, u64, Seq<char>, Seq<char>),
                Seq<char>,
            >(m@),
        },
        r matches Ok(v) ==> version_text((v.0, v.1, v.2, v.3@, v.4@)) == text@,
        r is Ok ==> forall|i: int| 0 <= i < text@.len() ==> version_char(#[trigger] text@[i]),
{
    semver::Version::parse(text).map(
        |v| (v.major, v.minor, v.patch, v.pre.as_str().to_string(), v.build.as_str().to_string()),
    ).map_err(|e| format!("{:#}", anyhow::Error::new(e)))
}

/// Whether a version is at least as new as another one with the same major,
/// minor and patch number, by what `semver` makes of their pre-release
/// identifiers and build metadata.
pub uninterp spec fn semver_tail_at_least(
    pre: Seq<char>,
    build: Seq<char>,
    other_pre: Seq<char>,
    other_build: Seq<char>,
) -> bool;

/// Whether version `a` is at least as new as version `b`, where `tail` says so
/// of their pre-release identifiers and build metadata: the numbers are compared
/// from left to right; a release is newer than its pre-releases.
pub open spec fn ordered(
    a: (u64, u64, u64, Seq<char>, Seq<char>),
    b: (u64, u64, u64, Seq<char>, Seq<char>),
    tail: bool,
) -> bool {
    if a.0 != b.0 {
        a.0 > b.0
    } else if a.1 != b.1 {
        a.1 > b.1
    } else if a.2 != b.2 {
        a.2 > b.2
    } else if (a.3.len() == 0) != (b.3.len() == 0) {
        a.3.len() == 0
    } else if a.3 == b.3 && a.4 == b.4 {
        true
    } else {
        tail
    }
}

/// Whether version `a` is at least as new as version `b`.
pub open spec fn version_at_least(
    a: (u64, u64, u64, Seq<char>, Seq<char>),
    b: (u64, u64, u64, Seq<char>, Seq<char>),
) -> bool {
    ordered(a, b, semver_tail_at_least(a.3, a.4, b.3, b.4))
}

/// The order of `semver::Version`, on the texts of two versions. It is total:
/// of two versions at least one is as new as the other.
#[verifier::external_body]
fn semver_at_least(a: &str, b: &str) -> (r: Option<bool>)
    ensures
        r is Some <==> (semver_parse(a@) is Some && semver_parse(b@) is Some),
        r matches Some(newer) ==> newer == ordered(
            semver_parse(a@)->0,
            semver_parse(b@)->0,
            semver_tail_at_least(
                (semver_parse(a@)->0).3,
                (semver_parse(a@)->0).4,
                (semver_parse(b@)->0).3,
                (semver_parse(b@)->0).4,
            ),
        ),
        r matches Some(newer) ==> (newer || version_at_least(
            semver_parse(b@)->0,
            semver_parse(a@)->0,
        )),
{
    Some(semver::Version::parse(a).ok()? >= semver::Version::parse(b).ok()?)
}

/// A semantic version.
#[derive(Debug, PartialEq, Eq)]
pub struct Version {
    major: u64,
    minor: u64,
    patch: u64,
    pre: String,
    build: String,
}

impl View for Version {
    type V = (u64, u64, u64, Seq<char>, Seq<char>);

    closed spec fn view(&self) -> (u64, u64, u64, Seq<char>, Seq<char>) {
        (self.major, self.minor, self.patch, self.pre@, self.build@)
    }
}

impl Version {
    /// A version reads back as itself.
    #[verifier::type_invariant]
    spec fn reads_back(self) -> bool {
        semver_parse(version_text(self@)) == Some(self@)
    }

    /// Reads a version; or tells why the text is none.
    pub fn parse(text: &str) -> (r: Result<Version, String>)
        ensures
            r is Ok <==> semver_parse(text@) is Some,
            r matches Ok(v) ==> semver_parse(text@) == Some(v@) && version_text(v@) == text@,
            r matches Err(m) ==> m@ == semver_refusal(text@),
            r is Ok ==> forall|i: int| 0 <= i < text@.len() ==> version_char(#[trigger] text@[i]),
    {
        match parse_semver(text) {
            Ok((major, minor, patch, pre, build)) => Ok(
                Version { major, minor, patch, pre, build },
            ),
            Err(e) => Err(e),
        }
    }

    /// Writes the version down.
    pub fn to_text(&self) -> (r: String)
        ensures
            r@ == version_text(self@),
            semver_parse(r@) == Some(self@),
    {
        proof {
            use_type_invariant(self);
        }
        let mut r: String = decimal_text(self.major);
        r.append(".");
        r.append(decimal_text(self.minor).as_str());
        r.append(".");
        r.append(decimal_text(self.patch).as_str());
        if !self.pre.as_str().is_empty() {
            r.append("-");
            r.append(self.pre.as_str());
        }
        if !self.build.as_str().is_empty() {
            r.append("+");
            r.append(self.build.as_str());
        }
        assert(r@ =~= version_text(self@));
        r
    }

    /// Whether this version is at least as new as another one. Where it is not,
    /// the other one is at least as new as this one.
    pub fn at_least(&self, other: &Version) -> (r: bool)
        ensures
            r == version_at_least(self@, other@),
            !r ==> version_at_least(other@, self@),
    {
        match semver_at_least(self.to_text().as_str(), other.to_text().as_str()) {
            Some(newer) => newer,
            None => false,
        }
    }
}

/// The message of the error with which `regex::Regex::new` refuses `pattern`, if
/// it does.
pub uninterp spec fn regex_refusal(pattern: Seq<char>) -> Option<Seq<char>>;

/// Whether `pattern` is a regular expression.
pub open spec fn regex_valid(pattern: Seq<char>) -> bool {
    regex_refusal(pattern) is None
}

/// `regex::Regex::new`: whether it accepts the pattern, or the message of its
/// error as `anyhow` writes it.
#[verifier::external_body]
fn check_regex(pattern: &str) -> (r: Result<(), String>)
    ensures
        match r {
            Ok(_) => regex_refusal(pattern@) is None,
            Err(m) => regex_refusal(pattern@) == Some(m@),
        },
{
    regex::Regex::new(pattern).map(|_| ()).map_err(|e| format!("{:#}", anyhow::Error::new(e)))
}

/// What the capture group `group` holds in the first match of `pattern` in
/// `haystack`, as `regex::Regex::captures` finds it: nothing where there is no
/// match, or where the match leaves the group out.
pub uninterp spec fn regex_group(pattern: Seq<char>, haystack: Seq<char>, group: nat) -> Option<
    Seq<char>,
>;

/// `regex::Regex::captures`, and `Captures::get` on its result. What a group
/// captures is a part of the text that was searched.
#[verifier::external_body]
fn capture_group(pattern: &str, haystack: &str, group: usize) -> (r: Option<Option<String>>)
    ensures
        r is Some <==> regex_valid(pattern@),
        r matches Some(found) ==> text::text_of(found) == regex_group(
            pattern@,
            haystack@,
            group as nat,
        ),
        r matches Some(Some(found)) ==> text::contains(haystack@, found@),
{
    let re = regex::Regex::new(pattern).ok()?;
    Some(re.captures(haystack).and_then(|c| c.get(group)).map(|m| m.as_str().to_string()))
}

/// A regular expression whose first capture group holds the version in the
/// version output of a tool.
#[derive(Debug)]
pub struct VersionPattern {
    source: String,
}

impl View for VersionPattern {
    type V = Seq<char>;

    closed spec fn view(&self) -> Seq<char> {
        self.source@
    }
}

impl VersionPattern {
    #[verifier::type_invariant]
    spec fn valid(self) -> bool {
        regex_valid(self.source@)
    }

    /// Takes a regular expression for a pattern; or tells why the source is none.
    pub fn new(source: &str) -> (r: Result<VersionPattern, String>)
        ensures
            r is Ok <==> regex_valid(source@),
            r matches Err(m) ==> regex_refusal(source@) == Some(m@),
            r matches Ok(p) ==> p@ == source@,
    {
        match check_regex(source) {
            Ok(_) => Ok(VersionPattern { source: source.to_string() }),
            Err(e) => Err(e),
        }
    }

    /// The regular expression.
    pub fn as_str(&self) -> (r: &str)
        ensures
            r@ == self@,
    {
        self.source.as_str()
    }

    /// What the first capture group holds in the first match in `output`.
    pub fn find(&self, output: &str) -> (r: Option<String>)
        ensures
            text::text_of(r) == regex_group(self@, output@, 1),
            r matches Some(found) ==> text::contains(output@, found@),
    {
        proof {
            use_type_invariant(self);
        }
        match capture_group(self.source.as_str(), output, 1) {
            Some(found) => found,
            None => None,
        }
    }
}

/// The version in what a pattern captured from the version output of a tool.
/// `pattern` and `output` are only reported.
pub fn captured_version(found: Option<String>, pattern: &str, output: &str) -> (r: Result<
    Version,
    UpdateError,
>)
    ensures
        match (found, r) {
            (Some(f), Ok(v)) => semver_parse(f@) == Some(v@) && version_text(v@) == f@,
            (Some(f), Err(UpdateError::NotSemver { found: told, cause })) => semver_parse(f@)
                is None && told@ == f@ && cause@ == semver_refusal(f@),
            (None, Err(UpdateError::VersionNotFound { pattern: p, output: o })) => p@ == pattern@
                && o@ == output@,
            _ => false,
        },
{
    match found {
        Some(found) => match Version::parse(found.as_str()) {
            Ok(v) => Ok(v),
            Err(cause) => Err(UpdateError::NotSemver { found, cause }),
        },
        None => Err(
            UpdateError::VersionNotFound {
                pattern: pattern.to_string(),
                output: output.to_string(),
            },
        ),
    }
}

/// The version that a pattern finds in the version output of a tool. A version
/// that is found is written as it stands in the output.
pub fn parse_version(output: &str, re: &VersionPattern) -> (r: Result<Version, UpdateError>)
    ensures
        match (regex_group(re@, output@, 1), r) {
            (Some(f), Ok(v)) => semver_parse(f) == Some(v@) && version_text(v@) == f,
            (Some(f), Err(UpdateError::NotSemver { found, cause })) => semver_parse(f) is None
                && found@ == f && cause@ == semver_refusal(f),
            (None, Err(UpdateError::VersionNotFound { pattern, output: o })) => pattern@ == re@
                && o@ == output@,
            _ => false,
        },
        r matches Ok(v) ==> text::contains(output@, version_text(v@)),
{
    let found: Option<String> = re.find(output);
    captured_version(found, re.as_str(), output)
}

/// What a tool printed: its two streams, each without the white space around
/// it, with a line feed between them where both hold something.
pub open spec fn combined(stdout: Seq<char>, stderr: Seq<char>) -> Seq<char> {
    text::trimmed(text::trimmed(stdout) + "\n"@ + text::trimmed(stderr))
}

/// Combines the two streams of a tool, so that a version that was printed to
/// either is found.
pub fn combine_streams(stdout: &str, stderr: &str) -> (r: String)
    ensures
        r@ == combined(stdout@, stderr@),
{
    let mut r: String = trim(stdout);
    r.append("\n");
    r.append(trim(stderr).as_str());
    trim(r.as_str())
}

/// Combines what a tool wrote to its two streams.
pub fn combine_output(stdout: &[u8], stderr: &[u8]) -> (r: String)
    ensures
        r@ == combined(text::lossy_text(stdout@), text::lossy_text(stderr@)),
{
    combine_streams(decode_lossy(stdout).as_str(), decode_lossy(stderr).as_str())
}

/// The version that is read from an output, if any.
pub open spec fn version_in(pattern: Seq<char>, output: Seq<char>) -> Option<
    (u64, u64, u64, Seq<char>, Seq<char>),
> {
    match regex_group(pattern, output, 1) {
        Some(found) => semver_parse(found),
        None => None,
    }
}

/// The view of an optional version.
pub open spec fn version_of(v: Option<Version>) -> Option<
    (u64, u64, u64, Seq<char>, Seq<char>),
> {
    match v {
        Some(v) => Some(v@),
        None => None,
    }
}

/// The installed version of a tool, from the output of its version command:
/// `None` where the tool did not run, or where no version is found.
pub fn installed_version(output: Option<String>, re: &VersionPattern) -> (r: Option<Version>)
    ensures
        version_of(r) == (match output {
            Some(o) => version_in(re@, o@),
            None => None,
        }),
        r is Some <==> (output matches Some(o) && (regex_group(re@, o@, 1) matches Some(found)
            && semver_outcome(found) is Ok)),
        r matches Some(v) ==> semver_outcome(regex_group(re@, output->0@, 1)->0) == Ok::<
            (u64, u64, u64, Seq<char>, Seq<char>),
            Seq<char>,
        >(v@),
{
    match output {
        Some(o) => match parse_version(o.as_str(), re) {
            Ok(v) => Some(v),
            Err(_) => None,
        },
        None => None,
    }
}

/// A version is at least as new as itself.
pub proof fn at_least_itself(v: (u64, u64, u64, Seq<char>, Seq<char>))
    ensures
        version_at_least(v, v),
{
}

/// Versions are compared by their numbers first, from left to right: a version
/// with a greater one is not older.
pub proof fn greater_number_is_newer(
    a: (u64, u64, u64, Seq<char>, Seq<char>),
    b: (u64, u64, u64, Seq<char>, Seq<char>),
)
    requires
        a.0 > b.0 || (a.0 == b.0 && (a.1 > b.1 || (a.1 == b.1 && a.2 > b.2))),
    ensures
        version_at_least(a, b),
        !version_at_least(b, a),
{
}

/// What a tool prints to either stream is part of its output, but for the white
/// space around it.
pub proof fn either_stream_is_kept(stdout: Seq<char>, stderr: Seq<char>)
    ensures
        text::contains(combined(stdout, stderr), text::trimmed(stdout)),
        text::contains(combined(stdout, stderr), text::trimmed(stderr)),
{
    reveal_strlit("\n");
    let a = text::trimmed(stdout);
    let b = text::trimmed(stderr);
    let whole = a + "\n"@ + b;
    let all = combined(stdout, stderr);
    trimmed_has_no_margin(stdout);
    trimmed_has_no_margin(stderr);
    if a.len() > 0 && b.len() > 0 {
        assert(whole[0] == a[0] && whole.last() == b.last());
        assert(all == whole);
    } else if b.len() > 0 {
        assert(whole[0] == '\n');
        assert(whole.skip(1) =~= b);
        assert(text::trimmed_start(whole) == text::trimmed_start(b));
        assert(all == b);
    } else if a.len() > 0 {
        assert(whole[0] == a[0] && whole.last() == '\n');
        assert(whole.drop_last() =~= a);
        assert(text::trimmed_end(whole) == text::trimmed_end(a));
        assert(all == a);
    }
    if a.len() == 0 {
        assert(all.subrange(0, 0) =~= a);
    } else {
        assert(all.subrange(0, a.len() as int) =~= a);
    }
    assert(text::occurs_at(all, a, 0));
    let at = all.len() - b.len();
    assert(all.subrange(at, all.len() as int) =~= b);
    assert(text::occurs_at(all, b, at));
}

/// The output of a tool has no white space around it.
pub proof fn output_has_no_margin(stdout: Seq<char>, stderr: Seq<char>)
    ensures
        combined(stdout, stderr).len() > 0 ==> {
            &&& !text::is_white(combined(stdout, stderr)[0])
            &&& !text::is_white(combined(stdout, stderr).last())
        },
{
    trimmed_has_no_margin(text::trimmed(stdout) + "\n"@ + text::trimmed(stderr));
}

proof fn trimmed_has_no_margin(s: Seq<char>)
    ensures
        text::trimmed(s).len() > 0 ==> {
            &&& !text::is_white(text::trimmed(s)[0])
            &&& !text::is_white(text::trimmed(s).last())
        },
{
    start_has_no_margin(s);
    end_has_no_margin(text::trimmed_start(s));
}

proof fn start_has_no_margin(s: Seq<char>)
    ensures
        text::trimmed_start(s).len() > 0 ==> !text::is_white(text::trimmed_start(s)[0]),
    decreases s.len(),
{
    if s.len() > 0 && text::is_white(s[0]) {
        start_has_no_margin(s.skip(1));
    }
}

proof fn end_has_no_margin(s: Seq<char>)
    ensures
        text::trimmed_end(s).len() > 0 ==> {
            &&& !text::is_white(text::trimmed_end(s).last())
            &&& text::trimmed_end(s)[0] == s[0]
        },
    decreases s.len(),
{
    if s.len() > 0 && text::is_white(s.last()) {
        end_has_no_margin(s.drop_last());
    }
}

/// The installed version is what the pattern finds anywhere in the whole output of
/// a tool: a version that stands in the first capture group of the first match is
/// the installed one, and without a match, or with a match that is no version,
/// there is none.
pub proof fn whole_output_is_searched(
    pattern: Seq<char>,
    output: Seq<char>,
    found: Seq<char>,
    v: (u64, u64, u64, Seq<char>, Seq<char>),
    refusal: Seq<char>,
)
    ensures
        regex_group(pattern, output, 1) is None ==> version_in(pattern, output) is None,
        regex_group(pattern, output, 1) == Some(found) && semver_outcome(found) == Ok::<
            (u64, u64, u64, Seq<char>, Seq<char>),
            Seq<char>,
        >(v) ==> version_in(pattern, output) == Some(v),
        regex_group(pattern, output, 1) == Some(found) && semver_outcome(found) == Err::<
            (u64, u64, u64, Seq<char>, Seq<char>),
            Seq<char>,
        >(refusal) ==> version_in(pattern, output) is None,
{
}

/// A text is taken for a version exactly where it reads as one, and otherwise the
/// reason is kept.
pub proof fn versions_are_taken_as_they_read(
    text: Seq<char>,
    v: (u64, u64, u64, Seq<char>, Seq<char>),
    refusal: Seq<char>,
)
    ensures
        semver_outcome(text) == Ok::<(u64, u64, u64, Seq<char>, Seq<char>), Seq<char>>(v)
            <==> semver_parse(text) == Some(v),
        semver_outcome(text) == Err::<(u64, u64, u64, Seq<char>, Seq<char>), Seq<char>>(refusal)
            ==> semver_parse(text) is None && semver_refusal(text) == refusal,
        regex_valid(text) <==> regex_refusal(text) is None,
{
}

/// A release is newer than its pre-releases; among versions that have the same
/// numbers, and both or neither a pre-release, those that are the same are as new
/// as each other, and of others semver decides by pre-release and build.
pub proof fn equal_numbers_are_ordered_by_the_rest(
    a: (u64, u64, u64, Seq<char>, Seq<char>),
    b: (u64, u64, u64, Seq<char>, Seq<char>),
)
    requires
        a.0 == b.0,
        a.1 == b.1,
        a.2 == b.2,
    ensures
        a.3.len() == 0 && b.3.len() > 0 ==> version_at_least(a, b) && !version_at_least(b, a),
        a.3 == b.3 && a.4 == b.4 ==> version_at_least(a, b),
        (a.3.len() == 0) == (b.3.len() == 0) && !(a.3 == b.3 && a.4 == b.4) ==> version_at_least(
            a,
            b,
        ) == semver_tail_at_least(a.3, a.4, b.3, b.4),
{
}

/// A version is written as its three numbers with dots between them; a hyphen and
/// the pre-release follow where there is one, and a plus sign and the build.
pub proof fn versions_are_written_part_by_part(
    major: u64,
    minor: u64,
    patch: u64,
    pre: Seq<char>,
    build: Seq<char>,
)
    ensures
        ({
            let e = Seq::<char>::empty();
            let plain = version_text((major, minor, patch, e, e));
            &&& plain == text::decimal(major as nat) + "."@ + text::decimal(minor as nat) + "."@
                + text::decimal(patch as nat)
            &&& pre.len() > 0 ==> version_text((major, minor, patch, pre, e)) == plain + "-"@ + pre
            &&& build.len() > 0 ==> version_text((major, minor, patch, pre, build))
                == version_text((major, minor, patch, pre, e)) + "+"@ + build
        }),
{
    let e = Seq::<char>::empty();
    let plain = version_text((major, minor, patch, e, e));
    assert(plain =~= text::decimal(major as nat) + "."@ + text::decimal(minor as nat) + "."@
        + text::decimal(patch as nat));
    if pre.len() > 0 {
        assert(version_text((major, minor, patch, pre, e)) =~= plain + "-"@ + pre);
    }
    if build.len() > 0 {
        assert(version_text((major, minor, patch, pre, build)) =~= version_text(
            (major, minor, patch, pre, e),
        ) + "+"@ + build);
    }
}

/// The output of a tool is what stands on its two streams between the white space
/// around it: both, with a line feed between them, or the one that holds something.
pub proof fn output_is_both_streams(
    a: Seq<char>,
    out: Seq<char>,
    b: Seq<char>,
    c: Seq<char>,
    err: Seq<char>,
    d: Seq<char>,
)
    requires
        text::blank(a),
        text::blank(b),
        text::blank(c),
        text::blank(d),
        text::no_margin(out),
        text::no_margin(err),
    ensures
        out.len() > 0 && err.len() > 0 ==> combined(a + out + b, c + err + d) == out + "\n"@ + err,
        out.len() == 0 ==> combined(a + out + b, c + err + d) == err,
        err.len() == 0 ==> combined(a + out + b, c + err + d) == out,
{
    reveal_strlit("\n");
    let e = Seq::<char>::empty();
    text::trimming_leaves_the_middle(a, out, b);
    text::trimming_leaves_the_middle(c, err, d);
    let whole = out + "\n"@ + err;
    if out.len() > 0 && err.len() > 0 {
        assert(whole[0] == out[0] && whole.last() == err.last());
        text::trimming_leaves_the_middle(e, whole, e);
        assert(e + whole + e =~= whole);
    }
    if out.len() == 0 {
        text::trimming_leaves_the_middle("\n"@, err, e);
        assert("\n"@ + err + e =~= whole);
    }
    if err.len() == 0 {
        text::trimming_leaves_the_middle(e, out, "\n"@);
        assert(e + out + "\n"@ =~= whole);
    }
}

/// The view of an optional version shows it where there is one.
pub proof fn versions_are_shown_as_they_are(v: Version)
    ensures
        version_of(Some(v)) == Some(v@),
        version_of(None) is None,
{
}

} // verus!
