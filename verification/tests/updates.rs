use std::collections::HashMap;
use std::io::Write;

use clipdate::checksum::digest;
use clipdate::error::UpdateError;
use clipdate::paths::is_leftover;
use clipdate::platform::Platform;
use clipdate::release::{fetch_latest_version, is_success, release_url, GhAsset, GhRelease, Reply};
use clipdate::tool::ToolDef;
use clipdate::update::{
    archive_kind, decide, perform_self_update, prepare, process_tool, start, step, unpack, Action,
    Archive, Event, Job, MoveFault, Source, State, UpdateResult, Written,
};
use clipdate::version::Version;

fn linux() -> Platform {
    Platform {
        os: "linux".to_string(),
        arch: "x86_64".to_string(),
        target: "x86_64-unknown-linux-gnu".to_string(),
        windows: false,
    }
}

fn raw_tool() -> ToolDef {
    ToolDef {
        name: "tool".to_string(),
        exe_name: "tool{EXE}".to_string(),
        version_args: vec![],
        version_regex: "(.*)".to_string(),
        repo: "o/r".to_string(),
        asset_template: "tool_{VERSION}".to_string(),
        archive_entry_template: None,
    }
}

fn zip_tool() -> ToolDef {
    ToolDef {
        asset_template: "tool_{VERSION}.zip".to_string(),
        archive_entry_template: Some("tool".to_string()),
        ..raw_tool()
    }
}

fn job(tool: ToolDef, current: Option<&str>) -> Job {
    Job {
        tool,
        current: current.map(|v| Version::parse(v).unwrap()),
        dry_run: false,
        force: false,
        platform: linux(),
    }
}

fn asset(name: &str) -> GhAsset {
    GhAsset { name: name.to_string(), browser_download_url: format!("https://dl/{}", name) }
}

fn answer(tag: &str, assets: Vec<GhAsset>) -> Reply {
    Reply::Answer {
        code: 200,
        status: "200 OK".to_string(),
        body: String::new(),
        release: Ok(GhRelease { tag_name: tag.to_string(), assets }),
    }
}

fn refusal(code: u16) -> Reply {
    Reply::Answer {
        code,
        status: format!("{} Status", code),
        body: "body".to_string(),
        release: Err("no".to_string()),
    }
}

fn zip_of(name: &str, content: &[u8]) -> Vec<u8> {
    let mut writer = zip::ZipWriter::new(std::io::Cursor::new(Vec::new()));
    let options = zip::write::SimpleFileOptions::default()
        .compression_method(zip::CompressionMethod::Stored);
    writer.start_file(name, options).unwrap();
    writer.write_all(content).unwrap();
    writer.finish().unwrap().into_inner()
}

fn tar_gz_of(name: &str, content: &[u8]) -> Vec<u8> {
    let mut builder = tar::Builder::new(Vec::new());
    let mut header = tar::Header::new_gnu();
    header.set_size(content.len() as u64);
    header.set_mode(0o755);
    builder.append_data(&mut header, name, content).unwrap();
    let tar = builder.into_inner().unwrap();
    let mut encoder = flate2::write::GzEncoder::new(Vec::new(), flate2::Compression::default());
    encoder.write_all(&tar).unwrap();
    encoder.finish().unwrap()
}

/// A machine in memory: replies, downloads and files. The action with the number
/// `fault` fails where it can.
struct World {
    reply: Option<Reply>,
    downloads: HashMap<String, Vec<u8>>,
    files: HashMap<String, Vec<u8>>,
    installed: Option<Vec<u8>>,
    fault: usize,
    log: Vec<String>,
}

impl World {
    fn new(reply: Reply) -> World {
        World {
            reply: Some(reply),
            downloads: HashMap::new(),
            files: HashMap::new(),
            installed: None,
            fault: usize::MAX,
            log: vec![],
        }
    }

    fn run(&mut self, job: &Job) -> Result<UpdateResult, UpdateError> {
        let first = self.installed.clone();
        let (mut state, mut action) = start(job);
        loop {
            let fails = self.log.len() == self.fault;
            let event = match action {
                Action::Ask { url } => {
                    self.log.push(format!("ask {}", url));
                    Event::Release(self.reply.take().unwrap())
                },
                Action::Download { url } => {
                    self.log.push(format!("download {}", url));
                    match self.downloads.get(&url) {
                        Some(bytes) if !fails => Event::Body(Ok(bytes.clone())),
                        _ => Event::Body(Err(UpdateError::DownloadStatus {
                            status: "404 Not Found".to_string(),
                            url,
                        })),
                    }
                },
                Action::Salvage { file, bytes } => {
                    self.log.push(format!("salvage {}", file));
                    self.files.insert(file, bytes);
                    Event::Written(Written::Done)
                },
                Action::Write { file, bytes } => {
                    self.log.push(format!("write {}", file));
                    if fails {
                        self.files.insert(file.clone(), vec![]);
                        Event::Written(Written::NotWritten {
                            path: format!("/bin/{}", file),
                            cause: "full".to_string(),
                        })
                    } else {
                        self.files.insert(file, bytes);
                        Event::Written(Written::Done)
                    }
                },
                Action::MakeExecutable { file } => {
                    self.log.push(format!("mark {}", file));
                    Event::Tried
                },
                Action::LookForInstalled => {
                    self.log.push("look".to_string());
                    Event::Installed(self.installed.is_some())
                },
                Action::Remove { file } => {
                    self.log.push(format!("remove {}", file));
                    if !fails {
                        self.files.remove(&file);
                    }
                    Event::Tried
                },
                Action::MoveAside { file } => {
                    self.log.push(format!("aside {}", file));
                    if fails {
                        Event::Moved(Err(MoveFault {
                            path: "/bin/tool".to_string(),
                            cause: "locked".to_string(),
                        }))
                    } else {
                        let bytes = self.installed.take().unwrap();
                        self.files.insert(file, bytes);
                        Event::Moved(Ok(()))
                    }
                },
                Action::MoveIn { file } => {
                    self.log.push(format!("in {}", file));
                    if fails {
                        Event::Moved(Err(MoveFault {
                            path: "/bin/tool".to_string(),
                            cause: "locked".to_string(),
                        }))
                    } else {
                        self.installed = self.files.remove(&file);
                        Event::Moved(Ok(()))
                    }
                },
                Action::Finish(result) => return result,
            };
            if first.is_some() {
                assert!(self.installed.is_some() || self.files.get("tool.old") == first.as_ref());
            }
            assert!(self.log.len() <= 10);
            let (s, a) = step(job, state, event).unwrap();
            state = s;
            action = a;
        }
    }
}

#[test]
fn a_tool_is_installed() {
    let mut w = World::new(answer("v1.2.3", vec![asset("tool_1.2.3")]));
    let url = "https://github.com/o/r/releases/download/v1.2.3/tool_1.2.3";
    w.downloads.insert(url.to_string(), b"new".to_vec());
    let r = w.run(&job(raw_tool(), None)).unwrap();
    assert_eq!(r, UpdateResult::Installed("1.2.3".to_string()));
    assert_eq!(w.installed, Some(b"new".to_vec()));
    assert!(w.files.is_empty());
    assert_eq!(
        w.log,
        vec![
            "ask https://api.github.com/repos/o/r/releases/latest".to_string(),
            format!("download {}", url),
            "write tool.tmp".to_string(),
            "mark tool.tmp".to_string(),
            "look".to_string(),
            "in tool.tmp".to_string(),
            "remove tool.old".to_string(),
        ]
    );
}

#[test]
fn a_tool_is_updated_from_a_verified_zip() {
    let zip = zip_of("bin/Tool", b"new");
    let mut w = World::new(answer("1.2.3", vec![asset("tool_1.2.3.zip"), asset("checksums.txt")]));
    let url = "https://github.com/o/r/releases/download/v1.2.3/tool_1.2.3.zip";
    w.downloads.insert(url.to_string(), zip.clone());
    let sums = format!("{}  tool_1.2.3.zip\n", digest(&zip));
    w.downloads.insert("https://dl/checksums.txt".to_string(), sums.into_bytes());
    w.installed = Some(b"old".to_vec());
    w.files.insert("tool.old".to_string(), b"older".to_vec());
    let r = w.run(&job(zip_tool(), Some("1.0.0"))).unwrap();
    assert_eq!(r, UpdateResult::Updated { from: "1.0.0".to_string(), to: "1.2.3".to_string() });
    assert_eq!(w.installed, Some(b"new".to_vec()));
    assert!(w.files.is_empty());
    assert_eq!(
        w.log[2..].to_vec(),
        vec![
            "download https://dl/checksums.txt".to_string(),
            "write tool.tmp".to_string(),
            "mark tool.tmp".to_string(),
            "look".to_string(),
            "remove tool.old".to_string(),
            "aside tool.old".to_string(),
            "in tool.tmp".to_string(),
            "remove tool.old".to_string(),
        ]
    );
}

#[test]
fn the_executable_survives_every_fault() {
    for fault in 0..10 {
        let mut w = World::new(answer("1.2.3", vec![asset("sha256sums")]));
        let url = "https://github.com/o/r/releases/download/v1.2.3/tool_1.2.3";
        w.downloads.insert(url.to_string(), b"new".to_vec());
        let sums = format!("{} tool_1.2.3", digest(b"new"));
        w.downloads.insert("https://dl/sha256sums".to_string(), sums.into_bytes());
        w.installed = Some(b"old".to_vec());
        w.fault = fault;
        match w.run(&job(raw_tool(), Some("1.0.0"))) {
            Ok(_) => {
                assert_eq!(w.installed, Some(b"new".to_vec()));
                assert_eq!(w.files.get("tool.tmp"), None);
            },
            Err(_) => assert!(
                w.installed == Some(b"old".to_vec())
                    || w.files.get("tool.old") == Some(&b"old".to_vec())
            ),
        }
    }
}

#[test]
fn a_wrong_checksum_stops_the_update() {
    let mut w = World::new(answer("1.2.3", vec![asset("tool_1.2.3.sha256")]));
    let url = "https://github.com/o/r/releases/download/v1.2.3/tool_1.2.3";
    w.downloads.insert(url.to_string(), b"tampered".to_vec());
    let sums = format!("{}  tool_1.2.3\n", digest(b"new"));
    w.downloads.insert("https://dl/tool_1.2.3.sha256".to_string(), sums.into_bytes());
    w.installed = Some(b"old".to_vec());
    let e = w.run(&job(raw_tool(), Some("1.0.0"))).unwrap_err();
    assert!(matches!(e, UpdateError::ChecksumMismatch { .. }));
    assert_eq!(w.installed, Some(b"old".to_vec()));
    assert!(w.files.is_empty());
    assert_eq!(w.log.len(), 3);
}

#[test]
fn a_missing_checksum_file_stops_the_update() {
    let mut w = World::new(answer("1.2.3", vec![asset("checksums.txt")]));
    let url = "https://github.com/o/r/releases/download/v1.2.3/tool_1.2.3";
    w.downloads.insert(url.to_string(), b"new".to_vec());
    let e = w.run(&job(raw_tool(), None)).unwrap_err();
    assert_eq!(
        e.layers(),
        vec![
            "downloading checksum file 'checksums.txt'".to_string(),
            "Download failed (404 Not Found): https://dl/checksums.txt".to_string(),
        ]
    );
    assert!(w.files.is_empty());
}

#[test]
fn a_dry_run_downloads_nothing_and_foretells_the_update() {
    let cases = [
        (None, false, true),
        (Some("1.0.0"), false, true),
        (Some("1.2.3-rc.1"), false, true),
        (Some("1.2.3"), false, false),
        (Some("2.0.0"), false, false),
        (None, true, true),
        (Some("1.2.3"), true, true),
        (Some("2.0.0"), true, true),
    ];
    for (current, force, due) in cases {
        let mut w = World::new(answer("v1.2.3", vec![asset("checksums.txt")]));
        let mut j = job(raw_tool(), current);
        j.dry_run = true;
        j.force = force;
        assert_eq!(
            w.run(&j).unwrap(),
            UpdateResult::DryRun {
                current: current.map(|c| c.to_string()),
                latest: "1.2.3".to_string(),
                due,
            }
        );
        assert_eq!(w.log.len(), 1);
        j.dry_run = false;
        let (_, action) = decide(&j, Ok(("1.2.3".to_string(), vec![])));
        assert_eq!(matches!(action, Action::Download { .. }), due);
        let left = matches!(action, Action::Finish(Ok(UpdateResult::UpToDate(_))));
        assert_eq!(left, !due);
    }
}

#[test]
fn an_up_to_date_tool_is_left_alone_unless_forced() {
    for current in ["1.2.3", "1.3.0", "1.2.4-rc.1"] {
        let mut w = World::new(answer("v1.2.3", vec![]));
        let r = w.run(&job(raw_tool(), Some(current))).unwrap();
        assert_eq!(r, UpdateResult::UpToDate(current.to_string()));
        assert_eq!(w.log.len(), 1);
    }
    let mut w = World::new(answer("v1.2.3", vec![]));
    let url = "https://github.com/o/r/releases/download/v1.2.3/tool_1.2.3";
    w.downloads.insert(url.to_string(), b"new".to_vec());
    let mut j = job(raw_tool(), Some("1.3.0"));
    j.force = true;
    assert_eq!(
        w.run(&j).unwrap(),
        UpdateResult::Updated { from: "1.3.0".to_string(), to: "1.2.3".to_string() }
    );
    // A pre-release is older than its release.
    let mut w = World::new(answer("v1.2.3", vec![]));
    w.downloads.insert(url.to_string(), b"new".to_vec());
    assert!(matches!(
        w.run(&job(raw_tool(), Some("1.2.3-rc.1"))),
        Ok(UpdateResult::Updated { .. })
    ));
}

#[test]
fn a_tool_is_taken_out_of_a_tar_gz() {
    let tool = ToolDef { asset_template: "tool_{VERSION}.tgz".to_string(), ..zip_tool() };
    let mut w = World::new(answer("1.0.0", vec![]));
    let url = "https://github.com/o/r/releases/download/v1.0.0/tool_1.0.0.tgz";
    w.downloads.insert(url.to_string(), tar_gz_of("x/tool", b"new"));
    assert_eq!(w.run(&job(tool, None)).unwrap(), UpdateResult::Installed("1.0.0".to_string()));
    assert_eq!(w.installed, Some(b"new".to_vec()));
}

#[test]
fn a_missing_entry_stops_the_update() {
    let mut w = World::new(answer("1.0.0", vec![]));
    let url = "https://github.com/o/r/releases/download/v1.0.0/tool_1.0.0.zip";
    w.downloads.insert(url.to_string(), zip_of("other", b"x"));
    let e = w.run(&job(zip_tool(), None)).unwrap_err();
    assert_eq!(
        e.layers(),
        vec!["extracting 'tool' from zip".to_string(), "'tool' not found in zip".to_string()]
    );
    let tool = ToolDef { asset_template: "t.tar.gz".to_string(), ..zip_tool() };
    let mut w = World::new(answer("1.0.0", vec![]));
    let url = "https://github.com/o/r/releases/download/v1.0.0/t.tar.gz";
    w.downloads.insert(url.to_string(), tar_gz_of("other", b"x"));
    let e = w.run(&job(tool, None)).unwrap_err();
    assert_eq!(
        e.layers(),
        vec!["extracting 'tool' from tar.gz".to_string(), "'tool' not found in tar.gz".to_string()]
    );
}

#[test]
fn an_unknown_archive_stops_the_update() {
    let tool = ToolDef { asset_template: "tool.rar".to_string(), ..zip_tool() };
    let mut w = World::new(answer("1.0.0", vec![]));
    let url = "https://github.com/o/r/releases/download/v1.0.0/tool.rar";
    w.downloads.insert(url.to_string(), b"x".to_vec());
    let e = w.run(&job(tool, None)).unwrap_err();
    assert_eq!(e.layers(), vec![format!("unsupported archive format for URL: {}", url)]);
    assert_eq!(archive_kind("a.zip"), Some(Archive::Zip));
    assert_eq!(archive_kind("a.tar.gz"), Some(Archive::TarGz));
    assert_eq!(archive_kind("a.tgz"), Some(Archive::TarGz));
    assert_eq!(archive_kind("a.ZIP"), None);
    assert_eq!(archive_kind("zip"), None);
}

#[test]
fn a_damaged_entry_leaves_what_could_be_read() {
    let mut zip = zip_of("tool", b"0123456789abcdef");
    let at = zip.windows(16).position(|w| w == b"0123456789abcdef").unwrap();
    zip[at] = b'X';
    let mut w = World::new(answer("1.0.0", vec![]));
    let url = "https://github.com/o/r/releases/download/v1.0.0/tool_1.0.0.zip";
    w.downloads.insert(url.to_string(), zip.clone());
    let e = w.run(&job(zip_tool(), None)).unwrap_err();
    assert_eq!(
        e.layers(),
        vec![
            "extracting 'tool' from zip".to_string(),
            "writing extracted file".to_string(),
            "Invalid checksum".to_string(),
        ]
    );
    assert_eq!(w.files.get("tool.tmp"), Some(&b"X123456789abcdef".to_vec()));
    assert_eq!(w.installed, None);
    let (state, action) =
        unpack(&job(zip_tool(), None), Version::parse("1.0.0").unwrap(), "1.0.0", zip);
    assert!(matches!(action, Action::Salvage { .. }));
    let fault = Written::NotCreated { path: "/bin/tool.tmp".to_string(), cause: "denied".to_string() };
    match step(&job(zip_tool(), None), state, Event::Written(fault)) {
        Some((State::Over, Action::Finish(Err(e)))) => assert_eq!(
            e.layers(),
            vec![
                "extracting 'tool' from zip".to_string(),
                "creating /bin/tool.tmp".to_string(),
                "denied".to_string(),
            ]
        ),
        other => panic!("{:?}", other),
    }
}

fn told(state: State, event: Event) -> Vec<String> {
    match step(&job(raw_tool(), None), state, event) {
        Some((State::Over, Action::Finish(Err(e)))) => e.layers(),
        other => panic!("{:?}", other),
    }
}

fn latest() -> Version {
    Version::parse("1.0.0").unwrap()
}

#[test]
fn failures_to_write_are_told() {
    let fault = || Written::NotCreated { path: "/p".to_string(), cause: "c".to_string() };
    let stop = || Written::NotWritten { path: "/p".to_string(), cause: "c".to_string() };
    let raw = || State::Writing { latest: latest(), source: Source::Asset };
    let tar = || State::Writing {
        latest: latest(),
        source: Source::Entry { archive: Archive::TarGz, entry: "e".to_string() },
    };
    let expected = vec!["writing /p".to_string(), "c".to_string()];
    assert_eq!(told(raw(), Event::Written(fault())), expected);
    assert_eq!(told(raw(), Event::Written(stop())), expected);
    assert_eq!(
        told(tar(), Event::Written(fault())),
        vec!["extracting 'e' from tar.gz".to_string(), "creating /p".to_string(), "c".to_string()]
    );
    assert_eq!(
        told(tar(), Event::Written(stop())),
        vec![
            "extracting 'e' from tar.gz".to_string(),
            "writing extracted file".to_string(),
            "c".to_string(),
        ]
    );
}

#[test]
fn failures_to_move_are_told() {
    let fault = || MoveFault { path: "/bin/tool".to_string(), cause: "c".to_string() };
    assert_eq!(
        told(State::MovingAside { latest: latest() }, Event::Moved(Err(fault()))),
        vec!["renaming /bin/tool to .old".to_string(), "c".to_string()]
    );
    assert_eq!(
        told(State::MovingIn { latest: latest() }, Event::Moved(Err(fault()))),
        vec!["renaming tmp to /bin/tool".to_string(), "c".to_string()]
    );
}

#[test]
fn an_event_that_is_not_waited_for_is_refused() {
    let j = job(raw_tool(), None);
    assert!(step(&j, State::Asking, Event::Tried).is_none());
    assert!(step(&j, State::Over, Event::Tried).is_none());
    assert!(step(&j, State::Looking { latest: latest() }, Event::Tried).is_none());
    assert!(step(&j, State::Tidying { latest: latest() }, Event::Installed(true)).is_none());
    let moved = || Event::Moved(Ok(()));
    assert!(step(&j, State::MovingIn { latest: latest() }, moved()).is_some());
    assert!(step(&j, State::Clearing { latest: latest() }, moved()).is_none());
}

#[test]
fn replies_without_a_release_are_told() {
    let layers = |reply: Reply| fetch_latest_version("o/r", reply).unwrap_err().layers();
    assert_eq!(
        layers(Reply::Nothing { cause: "offline".to_string() }),
        vec![
            "GET https://api.github.com/repos/o/r/releases/latest".to_string(),
            "offline".to_string(),
        ]
    );
    let limit =
        "GitHub rate limit hit for o/r. Pass --token / set GITHUB_TOKEN to raise limits.\nbody";
    assert_eq!(layers(refusal(403)), vec![limit.to_string()]);
    assert_eq!(layers(refusal(429)), vec![limit.to_string()]);
    assert_eq!(layers(refusal(404)), vec!["GitHub API error 404 Status for o/r: body".to_string()]);
    assert_eq!(
        layers(refusal(200)),
        vec!["parsing GitHub release JSON".to_string(), "no".to_string()]
    );
    assert!(!is_success(199));
    assert!(is_success(200));
    assert!(is_success(299));
    assert!(!is_success(300));
    assert_eq!(release_url("a/b"), "https://api.github.com/repos/a/b/releases/latest");
}

#[test]
fn a_leading_v_of_the_tag_is_dropped() {
    for (tag, version) in [("v1.2.3", "1.2.3"), ("1.2.3", "1.2.3"), ("vv1", "1"), ("V1", "V1"), ("v", "")] {
        let (found, assets) = fetch_latest_version("o/r", answer(tag, vec![asset("x")])).unwrap();
        assert_eq!(found, version);
        assert_eq!(assets.len(), 1);
    }
}

#[test]
fn a_tag_that_is_no_version_stops_the_update() {
    let j = job(raw_tool(), None);
    match decide(&j, Ok(("nightly".to_string(), vec![]))) {
        (State::Over, Action::Finish(Err(e))) => {
            assert!(matches!(e, UpdateError::NonSemverTag { .. }));
            assert_eq!(
                e.message(),
                "GitHub returned non-semver tag: nightly: \
                 unexpected character 'n' while parsing major version number"
            );
        },
        other => panic!("{:?}", other),
    }
}

#[test]
fn an_invalid_version_pattern_is_told() {
    let tool = ToolDef { version_regex: "(".to_string(), ..raw_tool() };
    let e = prepare(&tool, &linux()).unwrap_err();
    assert!(matches!(e, UpdateError::InvalidVersionRegex { .. }));
    assert_eq!(e.layers()[0], "invalid version_regex for 'tool': (");
    assert!(e.layers()[1].contains("unclosed group"));
    let (exe, pattern) = prepare(&raw_tool(), &linux()).unwrap();
    assert_eq!(exe, "tool");
    assert_eq!(pattern.as_str(), "(.*)");
}

#[test]
fn the_updater_updates_itself() {
    let mut w = World::new(answer("v2.0.0", vec![]));
    let url =
        "https://github.com/a/b/releases/download/v2.0.0/clipdate_2.0.0_linux_amd64.tar.gz";
    w.downloads.insert(url.to_string(), tar_gz_of("clipdate", b"new"));
    let j = perform_self_update("a/b", "1.0.0", false, false, linux());
    assert_eq!(j.tool.exe_file(&linux()), "clipdate");
    let r = w.run(&j).unwrap();
    assert_eq!(r, UpdateResult::Updated { from: "1.0.0".to_string(), to: "2.0.0".to_string() });
    assert_eq!(archive_kind(url), Some(Archive::TarGz));
}

#[test]
fn an_executable_that_could_not_be_removed_is_a_leftover() {
    let mut w = World::new(answer("1.2.3", vec![]));
    let url = "https://github.com/o/r/releases/download/v1.2.3/tool_1.2.3";
    w.downloads.insert(url.to_string(), b"new".to_vec());
    w.installed = Some(b"old".to_vec());
    w.fault = 8;
    assert!(w.run(&job(raw_tool(), Some("1.0.0"))).is_ok());
    assert_eq!(w.log[8], "remove tool.old");
    let left: Vec<&String> = w.files.keys().collect();
    assert_eq!(left, vec!["tool.old"]);
    assert!(is_leftover("tool.old"));
    assert!(!is_leftover("tool.tmp"));
}

#[test]
fn the_installed_version_comes_from_the_output() {
    let tool = ToolDef { version_regex: r"(\d+\.\d+\.\d+)".to_string(), ..raw_tool() };
    let (_, pattern) = prepare(&tool, &linux()).unwrap();
    let current = |output: Option<&str>| {
        let output = output.map(|o| o.to_string());
        process_tool(raw_tool(), &pattern, output, true, false, linux()).current
    };
    assert_eq!(current(Some("tool 1.4.2 (x)")), Some(Version::parse("1.4.2").unwrap()));
    assert_eq!(current(Some("none")), None);
    assert_eq!(current(None), None);
    assert_eq!(perform_self_update("a/b", "x", false, true, linux()).current, None);
}
