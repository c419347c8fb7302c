//! One update of one tool: what to do next, from what came of the step before.
//! The requests and the file operations are left to the caller.
use vstd::prelude::*;

use crate::archive;
use crate::archive::{extract_entry, extract_tar_gz, Content};
use crate::checksum;
use crate::checksum::{find_checksum_asset, verify_checksum};
use crate::error::{ExtractError, UpdateError};
use crate::platform;
use crate::platform::Platform;
use crate::release;
use crate::release::{fetch_latest_version, release_url, GhAsset, Reply};
use crate::template;
use crate::template::{Piece, Var};
use crate::text;
use crate::text::ends_with;
use crate::tool;
use crate::tool::{own_tool, ToolDef};
use crate::version;
use crate::version::{installed_version, Version, VersionPattern};

verus! {

/// What an update came to.
#[derive(Debug, PartialEq, Eq)]
pub enum UpdateResult {
    /// The installed version is the latest one, or newer.
    UpToDate(String),
    /// The latest version has taken the place of another one.
    Updated { from: String, to: String },
    /// The latest version was installed.
    Installed(String),
    /// Nothing was changed: these are the installed version and the latest one, and
    /// whether an update is due.
    DryRun { current: Option<String>, latest: String, due: bool },
}

/// The texts of an `UpdateResult`.
pub enum ResultView {
    UpToDate(Seq<char>),
    Updated { from: Seq<char>, to: Seq<char> },
    Installed(Seq<char>),
    DryRun { current: Option<Seq<char>>, latest: Seq<char>, due: bool },
}

impl View for UpdateResult {
    type V = ResultView;

    open spec fn view(&self) -> ResultView {
        match self {
            UpdateResult::UpToDate(v) => ResultView::UpToDate(v@),
            UpdateResult::Updated { from, to } => ResultView::Updated { from: from@, to: to@ },
            UpdateResult::Installed(v) => ResultView::Installed(v@),
            UpdateResult::DryRun { current, latest, due } => ResultView::DryRun {
                current: text::text_of(*current),
                latest: latest@,
                due: *due,
            },
        }
    }
}

/// An update that is to be made.
#[derive(Debug)]
pub struct Job {
    pub tool: ToolDef,
    /// The installed version, if there is one.
    pub current: Option<Version>,
    /// Whether only to tell what would be done.
    pub dry_run: bool,
    /// Whether to install the latest version though it is installed already.
    pub force: bool,
    pub platform: Platform,
}

/// The kinds of archive that an executable is taken out of.
#[derive(Debug, Clone, Copy, PartialEq, Eq, Structural)]
pub enum Archive {
    Zip,
    TarGz,
}

/// What the new executable is: the asset itself, or an entry of it.
#[derive(Debug)]
pub enum Source {
    Asset,
    Entry { archive: Archive, entry: String },
}

/// The texts of a `Source`.
pub enum SourceView {
    Asset,
    Entry { archive: Archive, entry: Seq<char> },
}

impl View for Source {
    type V = SourceView;

    open spec fn view(&self) -> SourceView {
        match self {
            Source::Asset => SourceView::Asset,
            Source::Entry { archive, entry } => SourceView::Entry {
                archive: *archive,
                entry: entry@,
            },
        }
    }
}

/// How far an update has got: the name says what it waits for.
#[derive(Debug)]
pub enum State {
    /// The description of the latest release.
    Asking,
    /// The asset.
    Fetching { latest: Version, tag: String, assets: Vec<GhAsset> },
    /// The checksum file of the asset.
    Checking { latest: Version, tag: String, asset: Vec<u8>, listing: String },
    /// The new executable beside the installed one.
    Writing { latest: Version, source: Source },
    /// What could be read of an entry whose content is damaged.
    Spoiling { archive: Archive, entry: String, cause: String },
    /// The permission to execute.
    Marking { latest: Version },
    /// Whether there is an installed executable.
    Looking { latest: Version },
    /// The removal of an older executable from the place to move to.
    Clearing { latest: Version },
    /// The move of the installed executable.
    MovingAside { latest: Version },
    /// The move of the new executable.
    MovingIn { latest: Version },
    /// The removal of the former executable.
    Tidying { latest: Version },
    /// Nothing: the update is over.
    Over,
}

/// The texts, bytes and versions of a `State`.
pub enum StateView {
    Asking,
    Fetching {
        latest: (u64, u64, u64, Seq<char>, Seq<char>),
        tag: Seq<char>,
        assets: Seq<GhAsset>,
    },
    Checking {
        latest: (u64, u64, u64, Seq<char>, Seq<char>),
        tag: Seq<char>,
        asset: Seq<u8>,
        listing: Seq<char>,
    },
    Writing { latest: (u64, u64, u64, Seq<char>, Seq<char>), source: SourceView },
    Spoiling { archive: Archive, entry: Seq<char>, cause: Seq<char> },
    Marking { latest: (u64, u64, u64, Seq<char>, Seq<char>) },
    Looking { latest: (u64, u64, u64, Seq<char>, Seq<char>) },
    Clearing { latest: (u64, u64, u64, Seq<char>, Seq<char>) },
    MovingAside { latest: (u64, u64, u64, Seq<char>, Seq<char>) },
    MovingIn { latest: (u64, u64, u64, Seq<char>, Seq<char>) },
    Tidying { latest: (u64, u64, u64, Seq<char>, Seq<char>) },
    Over,
}

impl View for State {
    type V = StateView;

    open spec fn view(&self) -> StateView {
        match self {
            State::Asking => StateView::Asking,
            State::Fetching { latest, tag, assets } => StateView::Fetching {
                latest: latest@,
                tag: tag@,
                assets: assets@,
            },
            State::Checking { latest, tag, asset, listing } => StateView::Checking {
                latest: latest@,
                tag: tag@,
                asset: asset@,
                listing: listing@,
            },
            State::Writing { latest, source } => StateView::Writing {
                latest: latest@,
                source: source@,
            },
            State::Spoiling { archive, entry, cause } => StateView::Spoiling {
                archive: *archive,
                entry: entry@,
                cause: cause@,
            },
            State::Marking { latest } => StateView::Marking { latest: latest@ },
            State::Looking { latest } => StateView::Looking { latest: latest@ },
            State::Clearing { latest } => StateView::Clearing { latest: latest@ },
            State::MovingAside { latest } => StateView::MovingAside { latest: latest@ },
            State::MovingIn { latest } => StateView::MovingIn { latest: latest@ },
            State::Tidying { latest } => StateView::Tidying { latest: latest@ },
            State::Over => StateView::Over,
        }
    }
}

/// What the caller is to do next. Files are named relative to the directory that
/// tools are installed in; the installed executable is the one of the tool.
#[derive(Debug)]
pub enum Action {
    /// Request the description of the latest release.
    Ask { url: String },
    /// Download a file.
    Download { url: String },
    /// Write the bytes to the file: what could be read of a damaged executable.
    Salvage { file: String, bytes: Vec<u8> },
    /// Write the bytes to the file.
    Write { file: String, bytes: Vec<u8> },
    /// Give the file the permission to be executed, where the system has one.
    MakeExecutable { file: String },
    /// See whether there is an installed executable.
    LookForInstalled,
    /// Remove the file. That it cannot be removed is no failure.
    Remove { file: String },
    /// Rename the installed executable to the file.
    MoveAside { file: String },
    /// Rename the file to the installed executable.
    MoveIn { file: String },
    /// Nothing more: the update is over.
    Finish(Result<UpdateResult, UpdateError>),
}

/// The texts and bytes of an `Action`.
pub enum ActionView {
    Ask { url: Seq<char> },
    Download { url: Seq<char> },
    Salvage { file: Seq<char>, bytes: Seq<u8> },
    Write { file: Seq<char>, bytes: Seq<u8> },
    MakeExecutable { file: Seq<char> },
    LookForInstalled,
    Remove { file: Seq<char> },
    MoveAside { file: Seq<char> },
    MoveIn { file: Seq<char> },
    Finish(Result<ResultView, Seq<Seq<char>>>),
}

impl View for Action {
    type V = ActionView;

    open spec fn view(&self) -> ActionView {
        match self {
            Action::Ask { url } => ActionView::Ask { url: url@ },
            Action::Download { url } => ActionView::Download { url: url@ },
            Action::Salvage { file, bytes } => ActionView::Salvage { file: file@, bytes: bytes@ },
            Action::Write { file, bytes } => ActionView::Write { file: file@, bytes: bytes@ },
            Action::MakeExecutable { file } => ActionView::MakeExecutable { file: file@ },
            Action::LookForInstalled => ActionView::LookForInstalled,
            Action::Remove { file } => ActionView::Remove { file: file@ },
            Action::MoveAside { file } => ActionView::MoveAside { file: file@ },
            Action::MoveIn { file } => ActionView::MoveIn { file: file@ },
            Action::Finish(Ok(r)) => ActionView::Finish(Ok(r@)),
            Action::Finish(Err(e)) => ActionView::Finish(Err(e.told())),
        }
    }
}

/// What came of writing a file. The paths are those to be displayed.
#[derive(Debug)]
pub enum Written {
    Done,
    NotCreated { path: String, cause: String },
    NotWritten { path: String, cause: String },
}

/// Why a file was not moved. The path is that of the installed executable.
#[derive(Debug)]
pub struct MoveFault {
    pub path: String,
    pub cause: String,
}

/// What came of an action.
#[derive(Debug)]
pub enum Event {
    /// The reply to `Ask`.
    Release(Reply),
    /// The result of `Download`.
    Body(Result<Vec<u8>, UpdateError>),
    /// The result of `Salvage` or `Write`.
    Written(Written),
    /// `MakeExecutable` or `Remove` was tried.
    Tried,
    /// The result of `LookForInstalled`.
    Installed(bool),
    /// The result of `MoveAside` or `MoveIn`.
    Moved(Result<(), MoveFault>),
}

/// The file that the new executable is first written to.
pub open spec fn tmp_file(job: Job) -> Seq<char> {
    job.tool.spec_exe_file(job.platform) + ".tmp"@
}

/// The file that the former executable is moved to.
pub open spec fn old_file(job: Job) -> Seq<char> {
    job.tool.spec_exe_file(job.platform) + ".old"@
}

/// The kind of archive that is downloaded from `url`.
pub open spec fn archive_of(url: Seq<char>) -> Option<Archive> {
    if text::has_suffix(url, ".zip"@) {
        Some(Archive::Zip)
    } else if text::has_suffix(url, ".tar.gz"@) || text::has_suffix(url, ".tgz"@) {
        Some(Archive::TarGz)
    } else {
        None
    }
}

/// How the extraction of an entry is told.
pub open spec fn extracting(archive: Archive, entry: Seq<char>) -> Seq<char> {
    match archive {
        Archive::Zip => "extracting '"@ + entry + "' from zip"@,
        Archive::TarGz => "extracting '"@ + entry + "' from tar.gz"@,
    }
}

/// What comes of looking for an entry in an archive of a kind.
pub open spec fn extracted(
    archive: Archive,
    bytes: Seq<u8>,
    entry: Seq<char>,
    windows: bool,
) -> archive::Extracted {
    match archive {
        Archive::Zip => archive::unzipped(bytes, entry),
        Archive::TarGz => archive::untarred(bytes, entry, windows),
    }
}

/// The update is over without success.
pub open spec fn failed(told: Seq<Seq<char>>) -> (StateView, ActionView) {
    (StateView::Over, ActionView::Finish(Err(told)))
}

/// The update is over with this result.
pub open spec fn done(r: ResultView) -> (StateView, ActionView) {
    (StateView::Over, ActionView::Finish(Ok(r)))
}

/// The text of the installed version.
pub open spec fn current_text(job: Job) -> Option<Seq<char>> {
    match job.current {
        Some(v) => Some(version::version_text(v@)),
        None => None,
    }
}

/// Whether the latest version need not be installed.
pub open spec fn settled(
    job: Job,
    latest: (u64, u64, u64, Seq<char>, Seq<char>),
) -> bool {
    &&& !job.force
    &&& job.current is Some
    &&& version::version_at_least(job.current->0@, latest)
}

/// What follows from the description of the latest release.
pub open spec fn decided(
    job: Job,
    fetched: Result<(Seq<char>, Seq<GhAsset>), Seq<Seq<char>>>,
) -> (StateView, ActionView) {
    match fetched {
        Err(told) => failed(told),
        Ok((tag, assets)) => match version::semver_parse(tag) {
            None => failed(
                seq!["GitHub returned non-semver tag: "@ + tag, version::semver_refusal(tag)],
            ),
            Some(latest) => if job.dry_run {
                done(
                    ResultView::DryRun {
                        current: current_text(job),
                        latest: version::version_text(latest),
                        due: !settled(job, latest),
                    },
                )
            } else if settled(job, latest) {
                done(ResultView::UpToDate(version::version_text(job.current->0@)))
            } else {
                (
                    StateView::Fetching { latest, tag, assets },
                    ActionView::Download { url: job.tool.spec_download_url(tag, job.platform) },
                )
            },
        },
    }
}

/// What follows when the asset is there and nothing speaks against it.
pub open spec fn unpacked(
    job: Job,
    latest: (u64, u64, u64, Seq<char>, Seq<char>),
    tag: Seq<char>,
    asset: Seq<u8>,
) -> (StateView, ActionView) {
    let url = job.tool.spec_download_url(tag, job.platform);
    match job.tool.spec_archive_entry(tag, job.platform) {
        None => (
            StateView::Writing { latest, source: SourceView::Asset },
            ActionView::Write { file: tmp_file(job), bytes: asset },
        ),
        Some(entry) => match archive_of(url) {
            None => failed(seq!["unsupported archive format for URL: "@ + url]),
            Some(archive) => match extracted(archive, asset, entry, job.platform.windows) {
                archive::Extracted::Whole(content) => (
                    StateView::Writing { latest, source: SourceView::Entry { archive, entry } },
                    ActionView::Write { file: tmp_file(job), bytes: content },
                ),
                archive::Extracted::Damaged { read, cause } => (
                    StateView::Spoiling { archive, entry, cause },
                    ActionView::Salvage { file: tmp_file(job), bytes: read },
                ),
                archive::Extracted::Failed(told) => failed(seq![extracting(archive, entry)] + told),
            },
        },
    }
}

/// What is told when the new executable could not be written.
pub open spec fn unwritten(source: SourceView, written: Written) -> Seq<Seq<char>> {
    match (source, written) {
        (_, Written::Done) => seq![],
        (SourceView::Asset, Written::NotCreated { path, cause }) => seq![
            "writing "@ + path@,
            cause@,
        ],
        (SourceView::Asset, Written::NotWritten { path, cause }) => seq![
            "writing "@ + path@,
            cause@,
        ],
        (SourceView::Entry { archive, entry }, Written::NotCreated { path, cause }) => seq![
            extracting(archive, entry),
        ] + seq!["creating "@ + path@, cause@],
        (SourceView::Entry { archive, entry }, Written::NotWritten { cause, .. }) => seq![
            extracting(archive, entry),
        ] + seq!["writing extracted file"@, cause@],
    }
}

/// What follows from an event in a state; nothing where the event is not what
/// the state waits for.
pub open spec fn next(job: Job, s: StateView, e: Event) -> Option<(StateView, ActionView)> {
    match (s, e) {
        (StateView::Asking, Event::Release(reply)) => Some(
            decided(job, release::fetched(job.tool.repo@, reply)),
        ),
        (StateView::Fetching { latest, tag, assets }, Event::Body(Ok(asset))) => {
            match checksum::checksum_file(assets, job.tool.spec_asset_name(tag, job.platform)) {
                Some(file) => Some(
                    (
                        StateView::Checking { latest, tag, asset: asset@, listing: file.name@ },
                        ActionView::Download { url: file.browser_download_url@ },
                    ),
                ),
                None => Some(unpacked(job, latest, tag, asset@)),
            }
        },
        (StateView::Fetching { .. }, Event::Body(Err(error))) => Some(failed(error.told())),
        (StateView::Checking { latest, tag, asset, .. }, Event::Body(Ok(checksums))) => {
            let name = job.tool.spec_asset_name(tag, job.platform);
            if checksum::vouches(checksums@, name, asset) {
                Some(unpacked(job, latest, tag, asset))
            } else {
                Some(
                    failed(
                        seq![
                            "checksum mismatch for "@ + name + ": expected "@
                                + checksum::expected_hash(text::lossy_text(checksums@), name)->0
                                + ", got "@ + checksum::digest_text(asset),
                        ],
                    ),
                )
            }
        },
        (StateView::Checking { listing, .. }, Event::Body(Err(error))) => Some(
            failed(seq!["downloading checksum file '"@ + listing + "'"@] + error.told()),
        ),
        (StateView::Writing { latest, source }, Event::Written(written)) => Some(
            match written {
                Written::Done => (
                    StateView::Marking { latest },
                    ActionView::MakeExecutable { file: tmp_file(job) },
                ),
                _ => failed(unwritten(source, written)),
            },
        ),
        (StateView::Spoiling { archive, entry, cause }, Event::Written(written)) => Some(
            match written {
                Written::Done => failed(
                    seq![extracting(archive, entry)] + seq!["writing extracted file"@, cause],
                ),
                _ => failed(unwritten(SourceView::Entry { archive, entry }, written)),
            },
        ),
        (StateView::Marking { latest }, Event::Tried) => Some(
            (StateView::Looking { latest }, ActionView::LookForInstalled),
        ),
        (StateView::Looking { latest }, Event::Installed(there)) => Some(
            if there {
                (StateView::Clearing { latest }, ActionView::Remove { file: old_file(job) })
            } else {
                (StateView::MovingIn { latest }, ActionView::MoveIn { file: tmp_file(job) })
            },
        ),
        (StateView::Clearing { latest }, Event::Tried) => Some(
            (StateView::MovingAside { latest }, ActionView::MoveAside { file: old_file(job) }),
        ),
        (StateView::MovingAside { latest }, Event::Moved(moved)) => Some(
            match moved {
                Ok(_) => (
                    StateView::MovingIn { latest },
                    ActionView::MoveIn { file: tmp_file(job) },
                ),
                Err(fault) => failed(
                    seq!["renaming "@ + fault.path@ + " to .old"@, fault.cause@],
                ),
            },
        ),
        (StateView::MovingIn { latest }, Event::Moved(moved)) => Some(
            match moved {
                Ok(_) => (
                    StateView::Tidying { latest },
                    ActionView::Remove { file: old_file(job) },
                ),
                Err(fault) => failed(seq!["renaming tmp to "@ + fault.path@, fault.cause@]),
            },
        ),
        (StateView::Tidying { latest }, Event::Tried) => Some(
            done(
                match current_text(job) {
                    Some(from) => ResultView::Updated { from, to: version::version_text(latest) },
                    None => ResultView::Installed(version::version_text(latest)),
                },
            ),
        ),
        _ => None,
    }
}

/// The file name of the executable of a tool, and the pattern that finds the
/// version in its output.
pub fn prepare(tool: &ToolDef, platform: &Platform) -> (r: Result<
    (String, VersionPattern),
    UpdateError,
>)
    ensures
        match r {
            Ok((exe, pattern)) => exe@ == tool.spec_exe_file(*platform) && pattern@
                == tool.version_regex@,
            Err(UpdateError::InvalidVersionRegex { name, regex, cause }) => name@ == tool.name@
                && regex@ == tool.version_regex@ && version::regex_refusal(tool.version_regex@)
                == Some(cause@),
            Err(_) => false,
        },
        r is Ok <==> version::regex_valid(tool.version_regex@),
{
    match VersionPattern::new(tool.version_regex.as_str()) {
        Ok(pattern) => Ok((tool.exe_file(platform), pattern)),
        Err(cause) => Err(
            UpdateError::InvalidVersionRegex {
                name: tool.name.clone(),
                regex: tool.version_regex.clone(),
                cause,
            },
        ),
    }
}

/// The update of a tool whose version command printed `output`, or did not run.
pub fn process_tool(
    tool: ToolDef,
    pattern: &VersionPattern,
    output: Option<String>,
    dry_run: bool,
    force: bool,
    platform: Platform,
) -> (r: Job)
    ensures
        r.tool == tool,
        version::version_of(r.current) == (match output {
            Some(o) => version::version_in(pattern@, o@),
            None => None,
        }),
        r.dry_run == dry_run,
        r.force == force,
        r.platform == platform,
{
    Job { tool, current: installed_version(output, pattern), dry_run, force, platform }
}

/// The update of the updater itself, which is of version `version`.
pub fn perform_self_update(
    repo: &str,
    version: &str,
    dry_run: bool,
    force: bool,
    platform: Platform,
) -> (r: Job)
    ensures
        tool::is_own_tool(r.tool, repo@, platform.windows),
        version::version_of(r.current) == version::semver_parse(version@),
        r.dry_run == dry_run,
        r.force == force,
        r.platform == platform,
{
    let current: Option<Version> = match Version::parse(version) {
        Ok(v) => Some(v),
        Err(_) => None,
    };
    Job { tool: own_tool(repo, platform.windows), current, dry_run, force, platform }
}

/// The file that the new executable is first written to.
fn tmp_name(job: &Job) -> (r: String)
    ensures
        r@ == tmp_file(*job),
{
    let mut r: String = job.tool.exe_file(&job.platform);
    r.append(".tmp");
    r
}

/// The file that the former executable is moved to.
fn old_name(job: &Job) -> (r: String)
    ensures
        r@ == old_file(*job),
{
    let mut r: String = job.tool.exe_file(&job.platform);
    r.append(".old");
    r
}

/// The kind of archive that is downloaded from `url`, if it is a known one.
pub fn archive_kind(url: &str) -> (r: Option<Archive>)
    ensures
        r == archive_of(url@),
{
    if ends_with(url, ".zip") {
        Some(Archive::Zip)
    } else if ends_with(url, ".tar.gz") || ends_with(url, ".tgz") {
        Some(Archive::TarGz)
    } else {
        None
    }
}

/// The failed extraction of an entry.
fn extraction_error(archive: Archive, entry: String, error: ExtractError) -> (r: UpdateError)
    ensures
        r.told() == seq![extracting(archive, entry@)] + error.told(),
{
    match archive {
        Archive::Zip => UpdateError::ZipExtraction { entry, error },
        Archive::TarGz => UpdateError::TarExtraction { entry, error },
    }
}

/// Looks for an entry in an archive of a kind.
fn extract(archive: Archive, bytes: &[u8], entry: &str, windows: bool) -> (r: Result<
    Content,
    ExtractError,
>)
    ensures
        archive::outcome(r) == extracted(archive, bytes@, entry@, windows),
{
    match archive {
        Archive::Zip => extract_entry(bytes, entry),
        Archive::TarGz => extract_tar_gz(bytes, entry, windows),
    }
}

/// The error of a new executable that could not be written.
fn write_error(source: Source, written: Written) -> (r: Option<UpdateError>)
    ensures
        r is None <==> written is Done,
        r matches Some(e) ==> e.told() == unwritten(source@, written),
{
    match source {
        Source::Asset => match written {
            Written::Done => None,
            Written::NotCreated { path, cause } => Some(UpdateError::Write { path, cause }),
            Written::NotWritten { path, cause } => Some(UpdateError::Write { path, cause }),
        },
        Source::Entry { archive, entry } => match written {
            Written::Done => None,
            Written::NotCreated { path, cause } => Some(
                extraction_error(archive, entry, ExtractError::Create { path, cause }),
            ),
            Written::NotWritten { cause, .. } => Some(
                extraction_error(archive, entry, ExtractError::WriteContent { cause }),
            ),
        },
    }
}

/// The update is over without success.
fn fail(error: UpdateError) -> (r: (State, Action))
    ensures
        (r.0@, r.1@) == failed(error.told()),
{
    (State::Over, Action::Finish(Err(error)))
}

/// The update is over with this result.
fn finish(result: UpdateResult) -> (r: (State, Action))
    ensures
        (r.0@, r.1@) == done(result@),
{
    (State::Over, Action::Finish(Ok(result)))
}

/// The text of the installed version.
fn current_version(job: &Job) -> (r: Option<String>)
    ensures
        text::text_of(r) == current_text(*job),
{
    match &job.current {
        Some(v) => Some(v.to_text()),
        None => None,
    }
}

/// Whether the latest version need not be installed.
fn is_settled(job: &Job, latest: &Version) -> (r: bool)
    ensures
        r == settled(*job, latest@),
        (!r && !job.force && job.current is Some) ==> version::version_at_least(
            latest@,
            job.current->0@,
        ),
{
    if job.force {
        return false;
    }
    match &job.current {
        Some(cur) => cur.at_least(latest),
        None => false,
    }
}

/// Whether an update is due, from the description of the latest release.
pub fn decide(job: &Job, fetched: Result<(String, Vec<GhAsset>), UpdateError>) -> (r: (
    State,
    Action,
))
    ensures
        (r.0@, r.1@) == decided(*job, release::fetch_view(fetched)),
        (!job.force && job.current is Some) ==> (r.0@ matches StateView::Fetching { latest, .. }
            ==> version::version_at_least(latest, job.current->0@)),
{
    match fetched {
        Err(error) => fail(error),
        Ok((tag, assets)) => {
            let latest: Version = match Version::parse(tag.as_str()) {
                Ok(v) => v,
                Err(cause) => {
                    return fail(UpdateError::NonSemverTag { tag, cause });
                },
            };
            let due: bool = !is_settled(job, &latest);
            if job.dry_run {
                return finish(
                    UpdateResult::DryRun {
                        current: current_version(job),
                        latest: latest.to_text(),
                        due,
                    },
                );
            }
            if !due {
                if let Some(cur) = &job.current {
                    return finish(UpdateResult::UpToDate(cur.to_text()));
                }
            }
            let url: String = job.tool.download_url(tag.as_str(), &job.platform);
            (State::Fetching { latest, tag, assets }, Action::Download { url })
        },
    }
}

/// Takes the new executable out of the asset.
pub fn unpack(job: &Job, latest: Version, tag: &str, asset: Vec<u8>) -> (r: (State, Action))
    ensures
        (r.0@, r.1@) == unpacked(*job, latest@, tag@, asset@),
{
    let file: String = tmp_name(job);
    match job.tool.archive_entry(tag, &job.platform) {
        None => (
            State::Writing { latest, source: Source::Asset },
            Action::Write { file, bytes: asset },
        ),
        Some(entry) => {
            let url: String = job.tool.download_url(tag, &job.platform);
            match archive_kind(url.as_str()) {
                None => fail(UpdateError::UnsupportedArchive { url }),
                Some(archive) => {
                    match extract(
                        archive,
                        asset.as_slice(),
                        entry.as_str(),
                        job.platform.windows,
                    ) {
                        Ok(Content::Whole(bytes)) => (
                            State::Writing { latest, source: Source::Entry { archive, entry } },
                            Action::Write { file, bytes },
                        ),
                        Ok(Content::Damaged { read, cause }) => (
                            State::Spoiling { archive, entry, cause },
                            Action::Salvage { file, bytes: read },
                        ),
                        Err(error) => fail(extraction_error(archive, entry, error)),
                    }
                },
            }
        },
    }
}

/// Goes on with the downloaded asset: to its checksum file where the release has
/// one, else to the executable in it.
fn after_asset(
    job: &Job,
    latest: Version,
    tag: String,
    assets: Vec<GhAsset>,
    asset: Vec<u8>,
) -> (r: (State, Action))
    ensures
        Some((r.0@, r.1@)) == next(
            *job,
            (StateView::Fetching { latest: latest@, tag: tag@, assets: assets@ }),
            Event::Body(Ok(asset)),
        ),
{
    let name: String = job.tool.asset_name(tag.as_str(), &job.platform);
    match find_checksum_asset(&assets, name.as_str()) {
        Some(i) => {
            let url: String = assets[i].browser_download_url.clone();
            let listing: String = assets[i].name.clone();
            (State::Checking { latest, tag, asset, listing }, Action::Download { url })
        },
        None => unpack(job, latest, tag.as_str(), asset),
    }
}

/// Goes on with the downloaded checksum file.
fn after_checksums(
    job: &Job,
    latest: Version,
    tag: String,
    asset: Vec<u8>,
    listing: String,
    checksums: Vec<u8>,
) -> (r: (State, Action))
    ensures
        Some((r.0@, r.1@)) == next(
            *job,
            (StateView::Checking {
                latest: latest@,
                tag: tag@,
                asset: asset@,
                listing: listing@,
            }),
            Event::Body(Ok(checksums)),
        ),
{
    let name: String = job.tool.asset_name(tag.as_str(), &job.platform);
    match verify_checksum(name.as_str(), asset.as_slice(), checksums.as_slice()) {
        Ok(_) => unpack(job, latest, tag.as_str(), asset),
        Err(error) => fail(error),
    }
}

/// The beginning of an update.
pub fn start(job: &Job) -> (r: (State, Action))
    ensures
        r.0@ == StateView::Asking,
        r.1@ == (ActionView::Ask { url: release::latest_release_url(job.tool.repo@) }),
{
    (State::Asking, Action::Ask { url: release_url(job.tool.repo.as_str()) })
}

/// The end of an update that went well.
fn conclude(job: &Job, latest: Version) -> (r: (State, Action))
    ensures
        Some((r.0@, r.1@)) == next(
            *job,
            (StateView::Tidying { latest: latest@ }),
            Event::Tried,
        ),
{
    let to: String = latest.to_text();
    match current_version(job) {
        Some(from) => finish(UpdateResult::Updated { from, to }),
        None => finish(UpdateResult::Installed(to)),
    }
}

/// The next state of an update and what to do next, from what came of the action
/// before; nothing where the event is not what the state waits for. Without
/// force, the version that is fetched is at least as new as the installed one.
pub fn step(job: &Job, state: State, event: Event) -> (r: Option<(State, Action)>)
    ensures
        match r {
            Some((s, a)) => next(*job, state@, event) == Some((s@, a@)),
            None => next(*job, state@, event) is None,
        },
        r matches Some((s, _)) ==> ((!job.force && job.current is Some && state@
            == StateView::Asking) ==> (s@ matches StateView::Fetching { latest, .. }
            ==> version::version_at_least(latest, job.current->0@))),
{
    match state {
        State::Asking => match event {
            Event::Release(reply) => Some(
                decide(job, fetch_latest_version(job.tool.repo.as_str(), reply)),
            ),
            _ => None,
        },
        State::Fetching { latest, tag, assets } => match event {
            Event::Body(Ok(asset)) => Some(after_asset(job, latest, tag, assets, asset)),
            Event::Body(Err(error)) => Some(fail(error)),
            _ => None,
        },
        State::Checking { latest, tag, asset, listing } => match event {
            Event::Body(Ok(checksums)) => Some(
                after_checksums(job, latest, tag, asset, listing, checksums),
            ),
            Event::Body(Err(error)) => Some(
                fail(UpdateError::ChecksumDownload { asset: listing, error: Box::new(error) }),
            ),
            _ => None,
        },
        State::Writing { latest, source } => match event {
            Event::Written(written) => match write_error(source, written) {
                None => Some(
                    (State::Marking { latest }, Action::MakeExecutable { file: tmp_name(job) }),
                ),
                Some(error) => Some(fail(error)),
            },
            _ => None,
        },
        State::Spoiling { archive, entry, cause } => match event {
            Event::Written(Written::Done) => Some(
                fail(extraction_error(archive, entry, ExtractError::ReadContent { cause })),
            ),
            Event::Written(written) => match write_error(
                Source::Entry { archive, entry },
                written,
            ) {
                Some(error) => Some(fail(error)),
                None => None,
            },
            _ => None,
        },
        State::Marking { latest } => match event {
            Event::Tried => Some((State::Looking { latest }, Action::LookForInstalled)),
            _ => None,
        },
        State::Looking { latest } => match event {
            Event::Installed(there) => if there {
                Some((State::Clearing { latest }, Action::Remove { file: old_name(job) }))
            } else {
                Some((State::MovingIn { latest }, Action::MoveIn { file: tmp_name(job) }))
            },
            _ => None,
        },
        State::Clearing { latest } => match event {
            Event::Tried => Some(
                (State::MovingAside { latest }, Action::MoveAside { file: old_name(job) }),
            ),
            _ => None,
        },
        State::MovingAside { latest } => match event {
            Event::Moved(Ok(_)) => Some(
                (State::MovingIn { latest }, Action::MoveIn { file: tmp_name(job) }),
            ),
            Event::Moved(Err(fault)) => Some(
                fail(UpdateError::MoveAside { path: fault.path, cause: fault.cause }),
            ),
            _ => None,
        },
        State::MovingIn { latest } => match event {
            Event::Moved(Ok(_)) => Some(
                (State::Tidying { latest }, Action::Remove { file: old_name(job) }),
            ),
            Event::Moved(Err(fault)) => Some(
                fail(UpdateError::MoveIn { path: fault.path, cause: fault.cause }),
            ),
            _ => None,
        },
        State::Tidying { latest } => match event {
            Event::Tried => Some(conclude(job, latest)),
            _ => None,
        },
        State::Over => None,
    }
}

/// The asset of the updater itself is named `<binary>_<version>_<os>_<arch>.<ext>`
/// and is an archive that the updater can unpack, on every machine and for every
/// version whose names hold no opening brace.
pub proof fn own_asset_is_an_archive(
    tool: ToolDef,
    repo: Seq<char>,
    version: Seq<char>,
    p: Platform,
)
    requires
        tool::is_own_tool(tool, repo, p.windows),
        template::brace_free(version),
        template::plain_platform(p),
    ensures
        tool.spec_asset_name(version, p) == "clipdate_"@ + version + "_"@ + platform::os_name(p.os@)
            + "_"@ + platform::arch_name(p.arch@) + "."@ + platform::archive_ext(p.windows),
        archive_of(tool.spec_download_url(version, p)) == Some(
            if p.windows {
                Archive::Zip
            } else {
                Archive::TarGz
            },
        ),
{
    reveal_strlit("clipdate_{VERSION}_{OS}_{ARCH}.{EXT}");
    reveal_strlit("clipdate_");
    reveal_strlit("_");
    reveal_strlit(".");
    reveal_strlit("{VERSION}");
    reveal_strlit("{OS}");
    reveal_strlit("{ARCH}");
    reveal_strlit("{EXT}");
    reveal_strlit("zip");
    reveal_strlit(".zip");
    reveal_strlit("tar.gz");
    reveal_strlit(".tar.gz");
    let pieces = seq![
        Piece::Text("clipdate_"@),
        Piece::Mark(Var::Version),
        Piece::Text("_"@),
        Piece::Mark(Var::Os),
        Piece::Text("_"@),
        Piece::Mark(Var::Arch),
        Piece::Text("."@),
        Piece::Mark(Var::Ext),
    ];
    own_pieces(pieces, version, p);
    template::expansion_fills_the_pieces(pieces, version, p);
    let name = tool.spec_asset_name(version, p);
    let url = tool.spec_download_url(version, p);
    let ext = platform::archive_ext(p.windows);
    assert(url.subrange(url.len() - ext.len() - 1, url.len() as int) =~= "."@ + ext);
    if p.windows {
        assert("."@ + "zip"@ =~= ".zip"@);
    } else {
        assert("."@ + "tar.gz"@ =~= ".tar.gz"@);
        assert(url.subrange(url.len() - 4, url.len() as int)[2] == 'g');
        assert(".zip"@[2] == 'i');
    }
}

/// The pieces of the template for the own asset.
proof fn own_pieces(pieces: Seq<Piece>, version: Seq<char>, p: Platform)
    requires
        pieces == seq![
            Piece::Text("clipdate_"@),
            Piece::Mark(Var::Version),
            Piece::Text("_"@),
            Piece::Mark(Var::Os),
            Piece::Text("_"@),
            Piece::Mark(Var::Arch),
            Piece::Text("."@),
            Piece::Mark(Var::Ext),
        ],
    ensures
        template::well_formed(pieces),
        template::written(pieces) == "clipdate_{VERSION}_{OS}_{ARCH}.{EXT}"@,
        template::filled(pieces, version, p) == "clipdate_"@ + version + "_"@ + platform::os_name(
            p.os@,
        ) + "_"@ + platform::arch_name(p.arch@) + "."@ + platform::archive_ext(p.windows),
{
    reveal_strlit("clipdate_{VERSION}_{OS}_{ARCH}.{EXT}");
    reveal_strlit("clipdate_");
    reveal_strlit("_");
    reveal_strlit(".");
    reveal_strlit("{VERSION}");
    reveal_strlit("{OS}");
    reveal_strlit("{ARCH}");
    reveal_strlit("{EXT}");
    reveal_with_fuel(template::written, 9);
    reveal_with_fuel(template::filled, 9);
    assert(template::written(pieces) =~= "clipdate_{VERSION}_{OS}_{ARCH}.{EXT}"@);
    assert(template::filled(pieces, version, p) =~= "clipdate_"@ + version + "_"@
        + platform::os_name(p.os@) + "_"@ + platform::arch_name(p.arch@) + "."@
        + platform::archive_ext(p.windows));
}

/// The job without the dry run.
pub open spec fn in_earnest(job: Job) -> Job {
    Job { dry_run: false, ..job }
}

/// A dry run foretells what an update would do: it tells that an update is due
/// exactly where the update would go on to download the release, and otherwise the
/// update would leave the installed version alone; it fails exactly as the update
/// would, where there is no version to compare with.
pub proof fn dry_run_foretells(
    job: Job,
    fetched: Result<(Seq<char>, Seq<GhAsset>), Seq<Seq<char>>>,
)
    requires
        job.dry_run,
    ensures
        match decided(job, fetched).1 {
            ActionView::Finish(Ok(ResultView::DryRun { current, latest, due })) => {
                &&& current == current_text(job)
                &&& due <==> decided(in_earnest(job), fetched).1 == (ActionView::Download {
                    url: job.tool.spec_download_url(fetched->Ok_0.0, job.platform),
                })
                &&& !due <==> (current is Some && decided(in_earnest(job), fetched) == done(
                    ResultView::UpToDate(current->0),
                ))
            },
            _ => decided(in_earnest(job), fetched) == decided(job, fetched) && decided(
                job,
                fetched,
            ).1 is Finish,
        },
{
}

/// Whether an update is due rests on the order of the two versions alone, but for
/// force: an installed version that is not at least as new as the latest release is
/// replaced, and one that is stays; with force, or without an installed version, the
/// release is always fetched. What is fetched is the asset for this machine, from
/// the release with that tag.
pub proof fn order_of_versions_decides(
    job: Job,
    tag: Seq<char>,
    latest: (u64, u64, u64, Seq<char>, Seq<char>),
    assets: Seq<GhAsset>,
)
    requires
        !job.dry_run,
        version::semver_outcome(tag) == Ok::<
            (u64, u64, u64, Seq<char>, Seq<char>),
            Seq<char>,
        >(latest),
    ensures
        ({
            let after = decided(job, Ok((tag, assets)));
            let fetches = after.0 == (StateView::Fetching { latest, tag, assets }) && after.1 == (
            ActionView::Download {
                url: "https://github.com/"@ + job.tool.repo@ + "/releases/download/v"@ + tag + "/"@
                    + job.tool.spec_asset_name(tag, job.platform),
            });
            &&& job.force || job.current is None ==> fetches
            &&& !job.force && job.current is Some && !version::version_at_least(
                job.current->0@,
                latest,
            ) ==> fetches
            &&& !job.force && job.current is Some && version::version_at_least(
                job.current->0@,
                latest,
            ) ==> after == (
                StateView::Over,
                ActionView::Finish(
                    Ok(ResultView::UpToDate(version::version_text(job.current->0@))),
                ),
            )
        }),
{
}

/// A release with a greater number is installed over an older version, however the
/// two are written: 1.10.0 is newer than 1.9.0.
pub proof fn greater_numbers_are_installed(
    job: Job,
    tag: Seq<char>,
    latest: (u64, u64, u64, Seq<char>, Seq<char>),
    assets: Seq<GhAsset>,
    current: (u64, u64, u64, Seq<char>, Seq<char>),
)
    requires
        !job.dry_run,
        version::semver_outcome(tag) == Ok::<
            (u64, u64, u64, Seq<char>, Seq<char>),
            Seq<char>,
        >(latest),
        job.current is Some,
        job.current->0@ == current,
    ensures
        latest.0 > current.0 || (latest.0 == current.0 && (latest.1 > current.1 || (latest.1
            == current.1 && latest.2 > current.2))) ==> decided(job, Ok((tag, assets))).1
            is Download,
        !job.force && (latest.0 < current.0 || (latest.0 == current.0 && (latest.1 < current.1 || (
        latest.1 == current.1 && latest.2 < current.2)))) ==> decided(job, Ok((tag, assets))).1
            == ActionView::Finish(Ok(ResultView::UpToDate(version::version_text(current)))),
{
    order_of_versions_decides(job, tag, latest, assets);
}

/// A dry run tells both versions, and that an update is due by the same order.
pub proof fn dry_run_tells_the_order(
    job: Job,
    tag: Seq<char>,
    latest: (u64, u64, u64, Seq<char>, Seq<char>),
    assets: Seq<GhAsset>,
)
    requires
        job.dry_run,
        version::semver_outcome(tag) == Ok::<
            (u64, u64, u64, Seq<char>, Seq<char>),
            Seq<char>,
        >(latest),
    ensures
        decided(job, Ok((tag, assets))) == (
            StateView::Over,
            ActionView::Finish(
                Ok(
                    ResultView::DryRun {
                        current: match job.current {
                            Some(v) => Some(version::version_text(v@)),
                            None => None,
                        },
                        latest: version::version_text(latest),
                        due: job.force || job.current is None || !version::version_at_least(
                            job.current->0@,
                            latest,
                        ),
                    },
                ),
            ),
        ),
{
}

/// Without a release, or with a tag that is no version, the update ends at once and
/// tells why, whatever it was asked for.
pub proof fn no_release_ends_the_update(
    job: Job,
    told: Seq<Seq<char>>,
    tag: Seq<char>,
    assets: Seq<GhAsset>,
    refusal: Seq<char>,
)
    ensures
        decided(job, Err(told)) == (StateView::Over, ActionView::Finish(Err(told))),
        version::semver_outcome(tag) == Err::<
            (u64, u64, u64, Seq<char>, Seq<char>),
            Seq<char>,
        >(refusal) ==> decided(job, Ok((tag, assets))) == (
            StateView::Over,
            ActionView::Finish(Err(seq!["GitHub returned non-semver tag: "@ + tag, refusal])),
        ),
{
}

/// The kind of an archive is known by what its URL ends with, whatever stands before
/// that, and nothing else is an archive.
pub proof fn archives_are_known_by_their_end(url: Seq<char>, stem: Seq<char>)
    ensures
        archive_of(stem + ".zip"@) == Some(Archive::Zip),
        archive_of(stem + ".tar.gz"@) == Some(Archive::TarGz),
        archive_of(stem + ".tgz"@) == Some(Archive::TarGz),
        archive_of(url) is Some ==> exists|s: Seq<char>|
            {
                ||| url == #[trigger] (s + ".zip"@)
                ||| url == s + ".tar.gz"@
                ||| url == s + ".tgz"@
            },
{
    reveal_strlit(".zip");
    reveal_strlit(".tar.gz");
    reveal_strlit(".tgz");
    text::suffixes_stand_at_the_end(url, stem, ".zip"@);
    text::suffixes_stand_at_the_end(url, stem, ".tar.gz"@);
    text::suffixes_stand_at_the_end(url, stem, ".tgz"@);
    let a = stem + ".tar.gz"@;
    let b = stem + ".tgz"@;
    assert(a.subrange(a.len() - 4, a.len() as int)[2] == 'g');
    assert(b.subrange(b.len() - 4, b.len() as int)[2] == 'g');
    assert(".zip"@[2] == 'i');
    if text::has_suffix(url, ".zip"@) {
        let s = url.take(url.len() - 4);
        assert(url =~= s + ".zip"@);
    } else if text::has_suffix(url, ".tar.gz"@) {
        let s = url.take(url.len() - 7);
        assert(url =~= s + ".tar.gz"@);
        assert((s + ".zip"@).len() > 0);
    } else if text::has_suffix(url, ".tgz"@) {
        let s = url.take(url.len() - 4);
        assert(url =~= s + ".tgz"@);
        assert((s + ".zip"@).len() > 0);
    }
}

/// The two files beside the installed executable are named after it.
pub proof fn files_are_named_after_the_executable(job: Job)
    ensures
        tmp_file(job) == job.tool.spec_exe_file(job.platform) + ".tmp"@,
        old_file(job) == job.tool.spec_exe_file(job.platform) + ".old"@,
{
}

/// The asset of a tool without an entry is itself the executable: every byte of it
/// is written.
pub proof fn raw_assets_are_written_whole(
    job: Job,
    latest: (u64, u64, u64, Seq<char>, Seq<char>),
    tag: Seq<char>,
    asset: Seq<u8>,
)
    requires
        job.tool.archive_entry_template is None,
    ensures
        unpacked(job, latest, tag, asset) == (
            (StateView::Writing { latest, source: SourceView::Asset }),
            (ActionView::Write {
                file: job.tool.spec_exe_file(job.platform) + ".tmp"@,
                bytes: asset,
            }),
        ),
{
}

/// From an asset that is a zip archive the first entry with the name that the tool
/// gives is written, every byte of it, whatever its length.
pub proof fn zip_entries_are_written_whole(
    job: Job,
    latest: (u64, u64, u64, Seq<char>, Seq<char>),
    tag: Seq<char>,
    asset: Seq<u8>,
    stem: Seq<char>,
    entry: Seq<char>,
    entries: Seq<(Option<Seq<char>>, Result<(Seq<u8>, Option<Seq<char>>), Seq<char>>)>,
    i: int,
)
    requires
        job.tool.spec_download_url(tag, job.platform) == stem + ".zip"@,
        job.tool.spec_archive_entry(tag, job.platform) == Some(entry),
        archive::zip_directory(asset) == Ok::<
            Seq<(Option<Seq<char>>, Result<(Seq<u8>, Option<Seq<char>>), Seq<char>>)>,
            Seq<char>,
        >(entries),
        0 <= i < entries.len(),
        entries[i].0 is Some,
        archive::zip_name_matches(entries[i].0->0, entry),
        forall|j: int|
            #![trigger entries[j]]
            0 <= j < i ==> entries[j].0 is None || !archive::zip_name_matches(
                entries[j].0->0,
                entry,
            ),
    ensures
        ({
            let file = job.tool.spec_exe_file(job.platform) + ".tmp"@;
            match entries[i].1 {
                Ok((content, None)) => unpacked(job, latest, tag, asset).1 == (ActionView::Write {
                    file,
                    bytes: content,
                }) && unpacked(job, latest, tag, asset).0 == (StateView::Writing {
                    latest,
                    source: SourceView::Entry { archive: Archive::Zip, entry },
                }),
                Ok((read, Some(cause))) => unpacked(job, latest, tag, asset).1 == (
                ActionView::Salvage { file, bytes: read }) && unpacked(job, latest, tag, asset).0
                    == (StateView::Spoiling { archive: Archive::Zip, entry, cause }),
                Err(cause) => unpacked(job, latest, tag, asset) == (
                    StateView::Over,
                    ActionView::Finish(
                        Err(
                            seq![
                                "extracting '"@ + entry + "' from zip"@,
                                "reading zip entry"@,
                                cause,
                            ],
                        ),
                    ),
                ),
            }
        }),
{
    archives_are_known_by_their_end(stem + ".zip"@, stem);
    archive::first_zip_entry_is_taken_whole(asset, entries, entry, i);
    if let Err(cause) = entries[i].1 {
        assert(seq![extracting(Archive::Zip, entry)] + seq!["reading zip entry"@, cause] =~= seq![
            "extracting '"@ + entry + "' from zip"@,
            "reading zip entry"@,
            cause,
        ]);
    }
}

/// From an asset that is a gzipped tar archive the first entry with the name that the
/// tool gives is written, every byte of it, whatever its length.
pub proof fn tar_entries_are_written_whole(
    job: Job,
    latest: (u64, u64, u64, Seq<char>, Seq<char>),
    tag: Seq<char>,
    asset: Seq<u8>,
    stem: Seq<char>,
    entry: Seq<char>,
    listing: Seq<Result<Seq<u8>, Seq<char>>>,
    path: Seq<char>,
    i: int,
)
    requires
        job.tool.spec_download_url(tag, job.platform) == stem + ".tar.gz"@
            || job.tool.spec_download_url(tag, job.platform) == stem + ".tgz"@,
        job.tool.spec_archive_entry(tag, job.platform) == Some(entry),
        archive::tar_gz_listing(asset) == Ok::<Seq<Result<Seq<u8>, Seq<char>>>, Seq<char>>(
            listing,
        ),
        0 <= i < listing.len(),
        listing[i] is Ok,
        archive::path_text(listing[i]->Ok_0, job.platform.windows) == Some(path),
        archive::tar_path_matches(path, entry),
        forall|j: int|
            0 <= j < i ==> archive::passed_over(
                #[trigger] listing[j],
                entry,
                job.platform.windows,
            ),
    ensures
        ({
            let file = job.tool.spec_exe_file(job.platform) + ".tmp"@;
            match archive::tar_gz_content(asset, i as nat) {
                (content, None) => unpacked(job, latest, tag, asset).1 == (ActionView::Write {
                    file,
                    bytes: content,
                }) && unpacked(job, latest, tag, asset).0 == (StateView::Writing {
                    latest,
                    source: SourceView::Entry { archive: Archive::TarGz, entry },
                }),
                (read, Some(cause)) => unpacked(job, latest, tag, asset).1 == (
                ActionView::Salvage { file, bytes: read }) && unpacked(job, latest, tag, asset).0
                    == (StateView::Spoiling { archive: Archive::TarGz, entry, cause }),
            }
        }),
{
    archives_are_known_by_their_end(stem, stem);
    archive::first_tar_entry_is_taken_whole(asset, listing, entry, job.platform.windows, i);
}

/// What an archive does not give up is told, below a message that names the entry and
/// the kind of the archive; an asset of another kind is told by its URL.
pub proof fn failed_extractions_are_told(
    job: Job,
    latest: (u64, u64, u64, Seq<char>, Seq<char>),
    tag: Seq<char>,
    asset: Seq<u8>,
    stem: Seq<char>,
    entry: Seq<char>,
    told: Seq<Seq<char>>,
)
    requires
        job.tool.spec_archive_entry(tag, job.platform) == Some(entry),
    ensures
        ({
            let url = job.tool.spec_download_url(tag, job.platform);
            let after = unpacked(job, latest, tag, asset);
            &&& url == stem + ".zip"@ && archive::unzipped(asset, entry)
                == archive::Extracted::Failed(told) ==> after == (
                StateView::Over,
                ActionView::Finish(Err(seq!["extracting '"@ + entry + "' from zip"@] + told)),
            )
            &&& (url == stem + ".tar.gz"@ || url == stem + ".tgz"@) && archive::untarred(
                asset,
                entry,
                job.platform.windows,
            ) == archive::Extracted::Failed(told) ==> after == (
                StateView::Over,
                ActionView::Finish(Err(seq!["extracting '"@ + entry + "' from tar.gz"@] + told)),
            )
            &&& archive_of(url) is None ==> after == (
                StateView::Over,
                ActionView::Finish(Err(seq!["unsupported archive format for URL: "@ + url])),
            )
        }),
{
    archives_are_known_by_their_end(stem, stem);
}

/// What could not be written is told with its cause, below what was being done.
pub proof fn unwritten_files_are_told(
    path: String,
    cause: String,
    archive: Archive,
    entry: Seq<char>,
)
    ensures
        ({
            let created = Written::NotCreated { path, cause };
            let stopped = Written::NotWritten { path, cause };
            let source = SourceView::Entry { archive, entry };
            let doing = "extracting '"@ + entry + (match archive {
                Archive::Zip => "' from zip"@,
                Archive::TarGz => "' from tar.gz"@,
            });
            &&& unwritten(SourceView::Asset, created) == seq!["writing "@ + path@, cause@]
            &&& unwritten(SourceView::Asset, stopped) == seq!["writing "@ + path@, cause@]
            &&& unwritten(source, created) == seq![doing, "creating "@ + path@, cause@]
            &&& unwritten(source, stopped) == seq![doing, "writing extracted file"@, cause@]
        }),
{
    let source = SourceView::Entry { archive, entry };
    let doing = extracting(archive, entry);
    assert(unwritten(source, Written::NotCreated { path, cause }) =~= seq![
        doing,
        "creating "@ + path@,
        cause@,
    ]);
    assert(unwritten(source, Written::NotWritten { path, cause }) =~= seq![
        doing,
        "writing extracted file"@,
        cause@,
    ]);
}

/// The views of what an update does and comes to show all texts and bytes in it.
pub proof fn actions_are_shown_as_they_are(a: Action)
    ensures
        match a {
            Action::Ask { url } => a@ == (ActionView::Ask { url: url@ }),
            Action::Download { url } => a@ == (ActionView::Download { url: url@ }),
            Action::Write { file, bytes } => a@ == (ActionView::Write {
                file: file@,
                bytes: bytes@,
            }),
            Action::Salvage { file, bytes } => a@ == (ActionView::Salvage {
                file: file@,
                bytes: bytes@,
            }),
            Action::MakeExecutable { file } => a@ == (ActionView::MakeExecutable { file: file@ }),
            Action::LookForInstalled => a@ == ActionView::LookForInstalled,
            Action::Remove { file } => a@ == (ActionView::Remove { file: file@ }),
            Action::MoveAside { file } => a@ == (ActionView::MoveAside { file: file@ }),
            Action::MoveIn { file } => a@ == (ActionView::MoveIn { file: file@ }),
            Action::Finish(Ok(r)) => a@ == ActionView::Finish(Ok(r@)),
            Action::Finish(Err(e)) => a@ == ActionView::Finish(Err(e.told())),
        },
{
}

/// The view of what an update came to shows the versions in it.
pub proof fn results_are_shown_as_they_are(r: UpdateResult)
    ensures
        match r {
            UpdateResult::UpToDate(v) => r@ == ResultView::UpToDate(v@),
            UpdateResult::Updated { from, to } => r@ == (ResultView::Updated {
                from: from@,
                to: to@,
            }),
            UpdateResult::Installed(v) => r@ == ResultView::Installed(v@),
            UpdateResult::DryRun { current, latest, due } => r@ == (ResultView::DryRun {
                current: match current {
                    Some(c) => Some(c@),
                    None => None,
                },
                latest: latest@,
                due,
            }),
        },
{
}

/// The views of the states of an update show all texts, bytes and versions in them.
pub proof fn states_are_shown_as_they_are(s: State, source: Source)
    ensures
        match s {
            State::Asking => s@ == StateView::Asking,
            State::Fetching { latest, tag, assets } => s@ == (StateView::Fetching {
                latest: latest@,
                tag: tag@,
                assets: assets@,
            }),
            State::Checking { latest, tag, asset, listing } => s@ == (StateView::Checking {
                latest: latest@,
                tag: tag@,
                asset: asset@,
                listing: listing@,
            }),
            State::Writing { latest, source } => s@ == (StateView::Writing {
                latest: latest@,
                source: source@,
            }),
            State::Spoiling { archive, entry, cause } => s@ == (StateView::Spoiling {
                archive,
                entry: entry@,
                cause: cause@,
            }),
            State::Marking { latest } => s@ == (StateView::Marking { latest: latest@ }),
            State::Looking { latest } => s@ == (StateView::Looking { latest: latest@ }),
            State::Clearing { latest } => s@ == (StateView::Clearing { latest: latest@ }),
            State::MovingAside { latest } => s@ == (StateView::MovingAside { latest: latest@ }),
            State::MovingIn { latest } => s@ == (StateView::MovingIn { latest: latest@ }),
            State::Tidying { latest } => s@ == (StateView::Tidying { latest: latest@ }),
            State::Over => s@ == StateView::Over,
        },
        match source {
            Source::Asset => source@ == SourceView::Asset,
            Source::Entry { archive, entry } => source@ == (SourceView::Entry {
                archive,
                entry: entry@,
            }),
        },
{
}

/// The release of the updater itself is fetched from its repository, and the
/// executable in it is installed under the name that it has there.
pub proof fn own_release_holds_the_executable(
    tool: ToolDef,
    repo: Seq<char>,
    version: Seq<char>,
    p: Platform,
)
    requires
        tool::is_own_tool(tool, repo, p.windows),
        template::brace_free(version),
        template::plain_platform(p),
    ensures
        ({
            let exe = "clipdate"@ + (if p.windows {
                ".exe"@
            } else {
                ""@
            });
            &&& tool.name@ == "clipdate"@
            &&& tool.spec_exe_file(p) == exe
            &&& tool.spec_archive_entry(version, p) == Some(exe)
            &&& tool.spec_download_url(version, p) == "https://github.com/"@ + repo
                + "/releases/download/v"@ + version + "/"@ + ("clipdate_"@ + version + "_"@
                + platform::os_name(p.os@) + "_"@ + platform::arch_name(p.arch@) + "."@
                + platform::archive_ext(p.windows))
            &&& tool.version_args@.len() == 0
            &&& tool.version_regex@ == ""@
        }),
{
    own_asset_is_an_archive(tool, repo, version, p);
    reveal_strlit("clipdate");
    reveal_strlit(".exe");
    reveal_strlit("");
    let exe = "clipdate"@ + platform::exe_suffix(p.windows);
    assert(template::brace_free(exe)) by {
        assert forall|i: int| 0 <= i < exe.len() implies #[trigger] exe[i] != '{' by {
            if i < 8 {
                assert(exe[i] == "clipdate"@[i]);
            } else {
                assert(exe[i] == platform::exe_suffix(p.windows)[i - 8]);
            }
        }
    }
    tool::names_follow_their_templates(tool, exe, Seq::empty(), version, p);
}

} // verus!
