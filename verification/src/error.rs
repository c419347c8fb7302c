//! What can go wrong, and how it is told.
use vstd::prelude::*;

use crate::text;
use crate::text::join;

verus! {

/// Why an archive did not yield the wanted file.
#[derive(Debug)]
pub enum ExtractError {
    /// The bytes are no zip archive.
    OpenZip { cause: String },
    /// No entry of the zip archive has the wanted name.
    NotInZip { entry: String },
    /// The entry of the zip archive cannot be opened.
    ReadZipEntry { cause: String },
    /// The bytes cannot be read as a gzipped tar archive.
    ReadTarEntries { cause: String },
    /// An entry of the tar archive is damaged.
    ReadTarEntry { cause: String },
    /// The path of a tar entry cannot be a path on this machine.
    ReadTarEntryPath { path: String },
    /// No entry of the tar archive has the wanted name.
    NotInTarGz { entry: String },
    /// The content of the entry is damaged.
    ReadContent { cause: String },
    /// The file to extract to could not be created.
    Create { path: String, cause: String },
    /// The extracted content could not be written.
    WriteContent { cause: String },
}

/// Why a tool was not updated.
#[derive(Debug)]
pub enum UpdateError {
    /// The configured pattern for version output is no regular expression.
    InvalidVersionRegex { name: String, regex: String, cause: String },
    /// The pattern does not match the version output.
    VersionNotFound { pattern: String, output: String },
    /// What the pattern found is no semantic version.
    NotSemver { found: String, cause: String },
    /// A request got no reply.
    Request { url: String, cause: String },
    /// GitHub refused the request for the number of those before it.
    RateLimited { repo: String, body: String },
    /// GitHub answered with another failure.
    Api { status: String, repo: String, body: String },
    /// The description of the release cannot be read.
    ReleaseJson { cause: String },
    /// The tag of the release is no semantic version.
    NonSemverTag { tag: String, cause: String },
    /// A download was answered with a failure.
    DownloadStatus { status: String, url: String },
    /// A download broke off.
    DownloadBody { cause: String },
    /// The file with the checksums could not be downloaded.
    ChecksumDownload { asset: String, error: Box<UpdateError> },
    /// The asset does not have the listed checksum.
    ChecksumMismatch { asset: String, expected: String, actual: String },
    /// The executable could not be taken out of a zip archive.
    ZipExtraction { entry: String, error: ExtractError },
    /// The executable could not be taken out of a gzipped tar archive.
    TarExtraction { entry: String, error: ExtractError },
    /// An entry is wanted from an asset that is no known archive.
    UnsupportedArchive { url: String },
    /// The new executable could not be written.
    Write { path: String, cause: String },
    /// The installed executable could not be moved aside.
    MoveAside { path: String, cause: String },
    /// The new executable could not be moved into place.
    MoveIn { path: String, cause: String },
    /// The token holds what a header cannot.
    InvalidToken { cause: String },
}

/// A message in the making.
struct Message {
    text: String,
}

impl Message {
    fn start(part: &str) -> (r: Message)
        ensures
            r.text@ == part@,
    {
        Message { text: part.to_string() }
    }

    fn with(self, part: &str) -> (r: Message)
        ensures
            r.text@ == self.text@ + part@,
    {
        let mut text: String = self.text;
        text.append(part);
        Message { text }
    }
}

/// One message.
fn one(first: String) -> (r: Vec<String>)
    ensures
        text::texts(r@) == seq![first@],
{
    let mut r: Vec<String> = Vec::new();
    r.push(first);
    assert(text::texts(r@) =~= seq![first@]);
    r
}

/// A message and its cause.
fn two(first: String, second: String) -> (r: Vec<String>)
    ensures
        text::texts(r@) == seq![first@, second@],
{
    let mut r: Vec<String> = Vec::new();
    r.push(first);
    r.push(second);
    assert(text::texts(r@) =~= seq![first@, second@]);
    r
}

/// A message, and the messages below it.
fn above(first: String, rest: Vec<String>) -> (r: Vec<String>)
    ensures
        text::texts(r@) == seq![first@] + text::texts(rest@),
{
    let mut r: Vec<String> = Vec::new();
    r.push(first);
    let mut i: usize = 0;
    while i < rest.len()
        invariant
            i <= rest@.len(),
            text::texts(r@) == seq![first@] + text::texts(rest@).take(i as int),
        decreases rest@.len() - i,
    {
        let ghost before = r@;
        r.push(rest[i].clone());
        assert(text::texts(r@) =~= text::texts(before).push(rest@[i as int]@));
        assert(text::texts(rest@).take(i + 1) =~= text::texts(rest@).take(i as int).push(
            rest@[i as int]@,
        ));
        i = i + 1;
    }
    assert(text::texts(rest@).take(i as int) =~= text::texts(rest@));
    r
}

impl ExtractError {
    /// What the error tells, from the outermost message to the innermost.
    pub open spec fn told(self) -> Seq<Seq<char>> {
        match self {
            ExtractError::OpenZip { cause } => seq!["opening zip"@, cause@],
            ExtractError::NotInZip { entry } => seq!["'"@ + entry@ + "' not found in zip"@],
            ExtractError::ReadZipEntry { cause } => seq!["reading zip entry"@, cause@],
            ExtractError::ReadTarEntries { cause } => seq!["reading tar entries"@, cause@],
            ExtractError::ReadTarEntry { cause } => seq!["reading tar entry"@, cause@],
            ExtractError::ReadTarEntryPath { path } => seq![
                "reading tar entry path"@,
                "only Unicode paths are supported on Windows: "@ + path@,
            ],
            ExtractError::NotInTarGz { entry } => seq!["'"@ + entry@ + "' not found in tar.gz"@],
            ExtractError::ReadContent { cause } => seq!["writing extracted file"@, cause@],
            ExtractError::Create { path, cause } => seq!["creating "@ + path@, cause@],
            ExtractError::WriteContent { cause } => seq!["writing extracted file"@, cause@],
        }
    }

    /// What the error tells, from the outermost message to the innermost.
    pub fn layers(&self) -> (r: Vec<String>)
        ensures
            text::texts(r@) == self.told(),
    {
        match self {
            ExtractError::OpenZip { cause } => two("opening zip".to_string(), cause.clone()),
            ExtractError::NotInZip { entry } => one(
                Message::start("'").with(entry.as_str()).with("' not found in zip").text,
            ),
            ExtractError::ReadZipEntry { cause } => two(
                "reading zip entry".to_string(),
                cause.clone(),
            ),
            ExtractError::ReadTarEntries { cause } => two(
                "reading tar entries".to_string(),
                cause.clone(),
            ),
            ExtractError::ReadTarEntry { cause } => two(
                "reading tar entry".to_string(),
                cause.clone(),
            ),
            ExtractError::ReadTarEntryPath { path } => two(
                "reading tar entry path".to_string(),
                Message::start("only Unicode paths are supported on Windows: ")
                    .with(path.as_str())
                    .text,
            ),
            ExtractError::NotInTarGz { entry } => one(
                Message::start("'").with(entry.as_str()).with("' not found in tar.gz").text,
            ),
            ExtractError::ReadContent { cause } => two(
                "writing extracted file".to_string(),
                cause.clone(),
            ),
            ExtractError::Create { path, cause } => two(
                Message::start("creating ").with(path.as_str()).text,
                cause.clone(),
            ),
            ExtractError::WriteContent { cause } => two(
                "writing extracted file".to_string(),
                cause.clone(),
            ),
        }
    }
}

impl UpdateError {
    /// What the error tells, from the outermost message to the innermost.
    pub open spec fn told(self) -> Seq<Seq<char>>
        decreases self,
    {
        match self {
            UpdateError::InvalidVersionRegex { name, regex, cause } => seq![
                "invalid version_regex for '"@ + name@ + "': "@ + regex@,
                cause@,
            ],
            UpdateError::VersionNotFound { pattern, output } => seq![
                "version pattern '"@ + pattern@ + "' not found in output:\n"@ + output@,
            ],
            UpdateError::NotSemver { found, cause } => seq![
                "'"@ + found@ + "' is not a valid semver"@,
                cause@,
            ],
            UpdateError::Request { url, cause } => seq!["GET "@ + url@, cause@],
            UpdateError::RateLimited { repo, body } => seq![
                "GitHub rate limit hit for "@ + repo@
                    + ". Pass --token / set GITHUB_TOKEN to raise limits.\n"@ + body@,
            ],
            UpdateError::Api { status, repo, body } => seq![
                "GitHub API error "@ + status@ + " for "@ + repo@ + ": "@ + body@,
            ],
            UpdateError::ReleaseJson { cause } => seq!["parsing GitHub release JSON"@, cause@],
            UpdateError::NonSemverTag { tag, cause } => seq![
                "GitHub returned non-semver tag: "@ + tag@,
                cause@,
            ],
            UpdateError::DownloadStatus { status, url } => seq![
                "Download failed ("@ + status@ + "): "@ + url@,
            ],
            UpdateError::DownloadBody { cause } => seq!["reading download body"@, cause@],
            UpdateError::ChecksumDownload { asset, error } => seq![
                "downloading checksum file '"@ + asset@ + "'"@,
            ] + error.told(),
            UpdateError::ChecksumMismatch { asset, expected, actual } => seq![
                "checksum mismatch for "@ + asset@ + ": expected "@ + expected@ + ", got "@
                    + actual@,
            ],
            UpdateError::ZipExtraction { entry, error } => seq![
                "extracting '"@ + entry@ + "' from zip"@,
            ] + error.told(),
            UpdateError::TarExtraction { entry, error } => seq![
                "extracting '"@ + entry@ + "' from tar.gz"@,
            ] + error.told(),
            UpdateError::UnsupportedArchive { url } => seq![
                "unsupported archive format for URL: "@ + url@,
            ],
            UpdateError::Write { path, cause } => seq!["writing "@ + path@, cause@],
            UpdateError::MoveAside { path, cause } => seq![
                "renaming "@ + path@ + " to .old"@,
                cause@,
            ],
            UpdateError::MoveIn { path, cause } => seq!["renaming tmp to "@ + path@, cause@],
            UpdateError::InvalidToken { cause } => seq!["invalid token header value"@, cause@],
        }
    }

    /// What the error tells, from the outermost message to the innermost.
    pub fn layers(&self) -> (r: Vec<String>)
        ensures
            text::texts(r@) == self.told(),
        decreases self,
    {
        match self {
            UpdateError::InvalidVersionRegex { name, regex, cause } => two(
                Message::start("invalid version_regex for '")
                    .with(name.as_str())
                    .with("': ")
                    .with(regex.as_str())
                    .text,
                cause.clone(),
            ),
            UpdateError::VersionNotFound { pattern, output } => one(
                Message::start("version pattern '")
                    .with(pattern.as_str())
                    .with("' not found in output:\n")
                    .with(output.as_str())
                    .text,
            ),
            UpdateError::NotSemver { found, cause } => two(
                Message::start("'").with(found.as_str()).with("' is not a valid semver").text,
                cause.clone(),
            ),
            UpdateError::Request { url, cause } => two(
                Message::start("GET ").with(url.as_str()).text,
                cause.clone(),
            ),
            UpdateError::RateLimited { repo, body } => one(
                Message::start("GitHub rate limit hit for ")
                    .with(repo.as_str())
                    .with(". Pass --token / set GITHUB_TOKEN to raise limits.\n")
                    .with(body.as_str())
                    .text,
            ),
            UpdateError::Api { status, repo, body } => one(
                Message::start("GitHub API error ")
                    .with(status.as_str())
                    .with(" for ")
                    .with(repo.as_str())
                    .with(": ")
                    .with(body.as_str())
                    .text,
            ),
            UpdateError::ReleaseJson { cause } => two(
                "parsing GitHub release JSON".to_string(),
                cause.clone(),
            ),
            UpdateError::NonSemverTag { tag, cause } => two(
                Message::start("GitHub returned non-semver tag: ").with(tag.as_str()).text,
                cause.clone(),
            ),
            UpdateError::DownloadStatus { status, url } => one(
                Message::start("Download failed (")
                    .with(status.as_str())
                    .with("): ")
                    .with(url.as_str())
                    .text,
            ),
            UpdateError::DownloadBody { cause } => two(
                "reading download body".to_string(),
                cause.clone(),
            ),
            UpdateError::ChecksumDownload { asset, error } => above(
                Message::start("downloading checksum file '").with(asset.as_str()).with("'").text,
                error.layers(),
            ),
            UpdateError::ChecksumMismatch { asset, expected, actual } => one(
                Message::start("checksum mismatch for ")
                    .with(asset.as_str())
                    .with(": expected ")
                    .with(expected.as_str())
                    .with(", got ")
                    .with(actual.as_str())
                    .text,
            ),
            UpdateError::ZipExtraction { entry, error } => above(
                Message::start("extracting '").with(entry.as_str()).with("' from zip").text,
                error.layers(),
            ),
            UpdateError::TarExtraction { entry, error } => above(
                Message::start("extracting '").with(entry.as_str()).with("' from tar.gz").text,
                error.layers(),
            ),
            UpdateError::UnsupportedArchive { url } => one(
                Message::start("unsupported archive format for URL: ").with(url.as_str()).text,
            ),
            UpdateError::Write { path, cause } => two(
                Message::start("writing ").with(path.as_str()).text,
                cause.clone(),
            ),
            UpdateError::MoveAside { path, cause } => two(
                Message::start("renaming ").with(path.as_str()).with(" to .old").text,
                cause.clone(),
            ),
            UpdateError::MoveIn { path, cause } => two(
                Message::start("renaming tmp to ").with(path.as_str()).text,
                cause.clone(),
            ),
            UpdateError::InvalidToken { cause } => two(
                "invalid token header value".to_string(),
                cause.clone(),
            ),
        }
    }

    /// All that the error tells, in one line.
    pub fn message(&self) -> (r: String)
        ensures
            r@ == text::joined(self.told(), ": "@),
    {
        join(&self.layers(), ": ")
    }
}

/// An error of an extraction tells everything that it holds: each part stands in its messages as it is,
/// and a cause, or the messages of the error below it, comes last.
pub proof fn extraction_errors_tell_what_they_hold(e: ExtractError)
    ensures
        match e {
            ExtractError::OpenZip { cause } => e.told() == seq!["opening zip"@, cause@],
            ExtractError::NotInZip { entry } => e.told() == seq!["'"@ + entry@ + "' not found in zip"@],
            ExtractError::ReadZipEntry { cause } => e.told() == seq!["reading zip entry"@, cause@],
            ExtractError::ReadTarEntries { cause } => e.told() == seq!["reading tar entries"@, cause@],
            ExtractError::ReadTarEntry { cause } => e.told() == seq!["reading tar entry"@, cause@],
            ExtractError::ReadTarEntryPath { path } => e.told() == seq![
                "reading tar entry path"@,
                "only Unicode paths are supported on Windows: "@ + path@,
            ],
            ExtractError::NotInTarGz { entry } => e.told() == seq!["'"@ + entry@ + "' not found in tar.gz"@],
            ExtractError::ReadContent { cause } => e.told() == seq!["writing extracted file"@, cause@],
            ExtractError::Create { path, cause } => e.told() == seq!["creating "@ + path@, cause@],
            ExtractError::WriteContent { cause } => e.told() == seq!["writing extracted file"@, cause@],
        },
{
}

/// An error of an update tells everything that it holds: each part stands in its messages as it is,
/// and a cause, or the messages of the error below it, comes last.
pub proof fn update_errors_tell_what_they_hold(e: UpdateError)
    ensures
        match e {
            UpdateError::InvalidVersionRegex { name, regex, cause } => e.told() == seq![
                "invalid version_regex for '"@ + name@ + "': "@ + regex@,
                cause@,
            ],
            UpdateError::VersionNotFound { pattern, output } => e.told() == seq![
                "version pattern '"@ + pattern@ + "' not found in output:\n"@ + output@,
            ],
            UpdateError::NotSemver { found, cause } => e.told() == seq![
                "'"@ + found@ + "' is not a valid semver"@,
                cause@,
            ],
            UpdateError::Request { url, cause } => e.told() == seq!["GET "@ + url@, cause@],
            UpdateError::RateLimited { repo, body } => e.told() == seq![
                "GitHub rate limit hit for "@ + repo@
                    + ". Pass --token / set GITHUB_TOKEN to raise limits.\n"@ + body@,
            ],
            UpdateError::Api { status, repo, body } => e.told() == seq![
                "GitHub API error "@ + status@ + " for "@ + repo@ + ": "@ + body@,
            ],
            UpdateError::ReleaseJson { cause } => e.told() == seq!["parsing GitHub release JSON"@, cause@],
            UpdateError::NonSemverTag { tag, cause } => e.told() == seq![
                "GitHub returned non-semver tag: "@ + tag@,
                cause@,
            ],
            UpdateError::DownloadStatus { status, url } => e.told() == seq![
                "Download failed ("@ + status@ + "): "@ + url@,
            ],
            UpdateError::DownloadBody { cause } => e.told() == seq!["reading download body"@, cause@],
            UpdateError::ChecksumDownload { asset, error } => e.told() == seq![
                "downloading checksum file '"@ + asset@ + "'"@,
            ] + error.told(),
            UpdateError::ChecksumMismatch { asset, expected, actual } => e.told() == seq![
                "checksum mismatch for "@ + asset@ + ": expected "@ + expected@ + ", got "@
                    + actual@,
            ],
            UpdateError::ZipExtraction { entry, error } => e.told() == seq![
                "extracting '"@ + entry@ + "' from zip"@,
            ] + error.told(),
            UpdateError::TarExtraction { entry, error } => e.told() == seq![
                "extracting '"@ + entry@ + "' from tar.gz"@,
            ] + error.told(),
            UpdateError::UnsupportedArchive { url } => e.told() == seq![
                "unsupported archive format for URL: "@ + url@,
            ],
            UpdateError::Write { path, cause } => e.told() == seq!["writing "@ + path@, cause@],
            UpdateError::MoveAside { path, cause } => e.told() == seq![
                "renaming "@ + path@ + " to .old"@,
                cause@,
            ],
            UpdateError::MoveIn { path, cause } => e.told() == seq!["renaming tmp to "@ + path@, cause@],
            UpdateError::InvalidToken { cause } => e.told() == seq!["invalid token header value"@, cause@],
        },
{
}

} // verus!
