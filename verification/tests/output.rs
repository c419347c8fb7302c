use clipdate::client::{client_headers, Header};
use clipdate::download::{begin_download, Download, Head};
use clipdate::error::UpdateError;
use clipdate::paths::{default_config_parts, default_install_dir, is_leftover};
use clipdate::report::{dry_run_notice, failure_message, print_update_result, Glyphs, Line, Style};
use clipdate::update::UpdateResult;

fn plain(line: &Line) -> String {
    line.spans.iter().map(|s| s.text.as_str()).collect()
}

fn styled(line: &Line, text: &str) -> Style {
    line.spans.iter().find(|s| s.text == text).unwrap().style
}

fn broken() -> UpdateError {
    UpdateError::DownloadBody { cause: "reset".to_string() }
}

#[test]
fn results_are_shown_in_ascii() {
    let g = Glyphs::new(true);
    let line = print_update_result("t", Ok(UpdateResult::UpToDate("1.0.0".to_string())), &g);
    assert_eq!(plain(&line), "ok t up to date (1.0.0)");
    assert!(!line.is_error);
    let updated = UpdateResult::Updated { from: "1.0.0".to_string(), to: "2.0.0".to_string() };
    let line = print_update_result("t", Ok(updated), &g);
    assert_eq!(plain(&line), "^ t 1.0.0 -> 2.0.0");
    assert_eq!(styled(&line, "1.0.0"), Style::Dim);
    assert_eq!(styled(&line, "2.0.0"), Style::Green);
    assert_eq!(styled(&line, "t"), Style::Bold);
    assert_eq!(styled(&line, "^"), Style::Cyan);
    assert_eq!(styled(&line, "->"), Style::Plain);
    let line = print_update_result("t", Ok(UpdateResult::Installed("1.0.0".to_string())), &g);
    assert_eq!(plain(&line), "ok t installed (1.0.0)");
    assert_eq!(styled(&line, "ok"), Style::Green);
    let line = print_update_result("t", Err(broken()), &g);
    assert_eq!(plain(&line), "x t: reading download body: reset");
    assert_eq!(styled(&line, "x"), Style::Red);
    assert!(line.is_error);
}

#[test]
fn dry_runs_are_shown() {
    let g = Glyphs::new(false);
    let dry = |current: Option<&str>, due: bool| UpdateResult::DryRun {
        current: current.map(|c| c.to_string()),
        latest: "2.0.0".to_string(),
        due,
    };
    let line = print_update_result("t", Ok(dry(Some("2.0.0"), false)), &g);
    assert_eq!(plain(&line), "· t up to date (2.0.0)");
    assert_eq!(styled(&line, "·"), Style::Dim);
    let line = print_update_result("t", Ok(dry(Some("3.0.0"), false)), &g);
    assert_eq!(plain(&line), "· t up to date (3.0.0)");
    let line = print_update_result("t", Ok(dry(Some("1.0.0"), true)), &g);
    assert_eq!(plain(&line), "→ t would update: 1.0.0 → 2.0.0");
    assert_eq!(styled(&line, "→"), Style::Yellow);
    assert_eq!(styled(&line, "1.0.0"), Style::Dim);
    let line = print_update_result("t", Ok(dry(Some("2.0.0"), true)), &g);
    assert_eq!(plain(&line), "→ t would update: 2.0.0 → 2.0.0");
    let line = print_update_result("t", Ok(dry(None, true)), &g);
    assert_eq!(plain(&line), "→ t would update: not installed → 2.0.0");
    assert_eq!(plain(&dry_run_notice(false)), "Dry-run mode — nothing will be downloaded.");
    assert_eq!(dry_run_notice(false).spans[0].style, Style::Yellow);
    assert!(plain(&dry_run_notice(true)).is_ascii());
}

#[test]
fn glyphs_are_those_of_the_terminal() {
    let g = Glyphs::new(true);
    assert_eq!((g.ok, g.error, g.updated, g.arrow, g.dot), ("ok", "x", "^", "->", "."));
    assert_eq!(g.spinner, vec!["|", "/", "-", "\\", "|", "/", "-", "\\", " "]);
    assert_eq!(g.progress_chars, "=> ");
    let g = Glyphs::new(false);
    assert_eq!((g.ok, g.error, g.updated, g.arrow, g.dot), ("✓", "✗", "↑", "→", "·"));
    assert_eq!(g.spinner.len(), 10);
    assert_eq!(g.spinner[0], "⠋");
    assert_eq!(g.spinner[9], "⠏");
    assert_eq!(g.progress_chars, "█▉▊▋▌▍▎▏ ");
}

#[test]
fn failures_are_counted() {
    let g = Glyphs::new(true);
    let good = || print_update_result("t", Ok(UpdateResult::UpToDate("1.0.0".to_string())), &g);
    let bad = || print_update_result("t", Err(broken()), &g);
    assert_eq!(failure_message(&vec![]), None);
    assert_eq!(failure_message(&vec![good(), good()]), None);
    assert_eq!(
        failure_message(&vec![bad(), good(), bad()]),
        Some("2 tool(s) failed to update".to_string())
    );
}

#[test]
fn downloads_begin_with_their_display() {
    let head = |code: u16, length: Option<&str>| Head::Answer {
        code,
        status: "404 Not Found".to_string(),
        length: length.map(|l| l.to_string()),
    };
    let d = begin_download("https://x/a/tool.zip", head(200, Some("1234"))).unwrap();
    assert_eq!(d.length, Some(1234));
    assert_eq!(d.message, "Downloading tool.zip");
    assert_eq!(
        d.template,
        "  {spinner:.cyan} {msg}\n  [{bar:40.cyan/blue}] {bytes}/{total_bytes} ({bytes_per_sec}, {eta})"
    );
    for length in [None, Some("-1"), Some("x")] {
        let d = begin_download("tool", head(206, length)).unwrap();
        assert_eq!(d.length, None);
        assert_eq!(d.template, "{spinner:.cyan} {msg} {bytes}");
        assert_eq!(d.message, "Downloading tool");
    }
    let e = begin_download("https://x/t", head(404, None)).unwrap_err();
    assert_eq!(e.layers(), vec!["Download failed (404 Not Found): https://x/t".to_string()]);
    let e = begin_download("https://x/t", Head::Nothing { cause: "c".to_string() }).unwrap_err();
    assert_eq!(e.layers(), vec!["GET https://x/t".to_string(), "c".to_string()]);
}

#[test]
fn a_download_is_its_chunks_in_order() {
    let mut d = Download::new();
    let chunk = [1u8, 2, 3, 4];
    assert_eq!(d.take(&chunk, Ok(4)).unwrap(), true);
    assert_eq!(d.take(&[9, 8, 7], Ok(2)).unwrap(), true);
    assert_eq!(d.take(&chunk, Ok(0)).unwrap(), false);
    assert_eq!(d.into_bytes(), vec![1, 2, 3, 4, 9, 8]);
    let mut d = Download::new();
    let e = d.take(&chunk, Err("reset".to_string())).unwrap_err();
    assert!(matches!(e, UpdateError::DownloadBody { .. }));
    assert_eq!(e.layers(), vec!["reading download body".to_string(), "reset".to_string()]);
    assert!(d.into_bytes().is_empty());
}

#[test]
fn requests_carry_their_headers() {
    let common = |agent: &str| vec![
        Header { name: "user-agent", value: agent.to_string() },
        Header { name: "accept", value: "application/vnd.github+json".to_string() },
        Header { name: "x-github-api-version", value: "2022-11-28".to_string() },
    ];
    assert_eq!(
        client_headers("1.0.0", "a/b", None).unwrap(),
        common("clipdate/1.0.0 (https://github.com/a/b)")
    );
    let mut expected = common("clipdate/1.0.0 (https://github.com/a/b)");
    expected.push(Header { name: "authorization", value: "Bearer tok".to_string() });
    assert_eq!(client_headers("1.0.0", "a/b", Some("tok")).unwrap(), expected);
    // A name that a header cannot hold is shortened.
    assert_eq!(client_headers("1.0.0", "a\nb", None).unwrap(), common("clipdate"));
}

#[test]
fn a_token_that_no_header_can_hold_is_refused() {
    for token in ["a\nb", "\u{7f}", "\0"] {
        let e = client_headers("1.0.0", "a/b", Some(token)).unwrap_err();
        assert!(matches!(e, UpdateError::InvalidToken { .. }));
        assert_eq!(e.message(), "invalid token header value: failed to parse header value");
    }
    for token in ["", "a\tb", "ü", "a b"] {
        assert!(client_headers("1.0.0", "a/b", Some(token)).is_ok());
    }
}

#[test]
fn tools_have_a_default_directory() {
    let some = |s: &str| Some(s.to_string());
    let dir = |windows, choco, profile, home| default_install_dir(windows, choco, profile, home).join("/");
    assert_eq!(dir(true, some("C"), some("P"), some("H")), "C/bin");
    assert_eq!(dir(true, None, some("P"), some("H")), "P/.local/bin");
    assert_eq!(dir(true, None, None, some("H")), "bin");
    assert_eq!(dir(false, some("C"), some("P"), some("H")), "H/.local/bin");
    assert_eq!(dir(false, some("C"), some("P"), None), "bin");
}

#[test]
fn the_configuration_has_a_default_path() {
    let dir = Some("/opt/clipdate".to_string());
    assert_eq!(default_config_parts(dir), vec!["/opt/clipdate", "tools.json"]);
    assert_eq!(default_config_parts(None), vec!["tools.json"]);
}

#[test]
fn leftovers_have_the_extension_old() {
    for name in ["a.old", "tool.exe.old", "..old", "ü.old"] {
        assert!(is_leftover(name), "{}", name);
        assert_eq!(
            std::path::Path::new(name).extension().and_then(|e| e.to_str()),
            Some("old"),
            "{}",
            name
        );
    }
    for name in [".old", "old", "a.old.exe", "a.OLD", "aold", "", "a.old "] {
        assert!(!is_leftover(name), "{}", name);
        assert_ne!(
            std::path::Path::new(name).extension().and_then(|e| e.to_str()),
            Some("old"),
            "{}",
            name
        );
    }
}
